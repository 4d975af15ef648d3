use gir::library::{Library, Namespace};
use gir::namespaces::{run, MAIN};
use gir::version::Version;

fn namespace(name: &str, crate_name: &str) -> Namespace {
    Namespace {
        name: name.to_string(),
        crate_name: crate_name.to_string(),
        package_name: Some(format!("{}-1.0", crate_name)),
        shared_library: vec![format!("lib{}.so", crate_name)],
        versions: vec![Version(1, 0, 0), Version(2, 4, 0)],
        types: Vec::new(),
    }
}

#[test]
fn namespaces_are_described() {
    let gir = Library {
        namespaces: vec![
            namespace("*", "*"),
            namespace("Gtk", "gtk"),
            namespace("GObject", "gobject"),
            namespace("GLib", "glib"),
        ],
    };
    let info = run(&gir);
    assert!(!info.is_glib_crate);
    assert_eq!(info.glib_ns_id, 3);
    let main = info.main();
    assert_eq!(main.name, "Gtk");
    assert_eq!(main.crate_name, "gtk");
    assert_eq!(main.sys_crate_name, "gtk_sys");
    assert_eq!(main.higher_crate_name, "gtk");
    assert_eq!(main.package_name.as_deref(), Some("gtk-1.0"));
    assert_eq!(main.shared_libs, vec!["libgtk.so".to_string()]);
    assert_eq!(main.versions, vec![Version(1, 0, 0), Version(2, 4, 0)]);
    let gobject = info.index(2);
    assert_eq!(gobject.sys_crate_name, "gobject_sys");
    assert_eq!(gobject.higher_crate_name, "glib");
    assert_eq!(info.index(MAIN).name, "Gtk");
}

#[test]
fn glib_and_gobject_are_glib_crates() {
    let glib = Library { namespaces: vec![namespace("*", "*"), namespace("GLib", "glib")] };
    let info = run(&glib);
    assert!(info.is_glib_crate);
    assert_eq!(info.glib_ns_id, 1);
    assert!(info.is_glib_crate());
    assert_eq!(info.glib_ns_id(), 1);

    let gobject = Library {
        namespaces: vec![namespace("*", "*"), namespace("GObject", "gobject"), namespace("GLib", "glib")],
    };
    let info = run(&gobject);
    assert!(info.is_glib_crate);
    assert_eq!(info.glib_ns_id, 2);
}

#[test]
fn last_glib_namespace_counts() {
    let gir = Library {
        namespaces: vec![namespace("GLib", "glib"), namespace("Gio", "gio"), namespace("GLib", "glib")],
    };
    let info = run(&gir);
    assert_eq!(info.glib_ns_id, 2);
    assert!(!info.is_glib_crate);
}
