use gir::imports::{ImportValue, Imports};
use gir::library::{Library, Namespace};
use gir::version::Version;

fn namespace(name: &str, crate_name: &str) -> Namespace {
    Namespace {
        name: name.to_string(),
        crate_name: crate_name.to_string(),
        package_name: None,
        shared_library: Vec::new(),
        versions: Vec::new(),
        types: Vec::new(),
    }
}

fn library(main_crate: &str) -> Library {
    Library {
        namespaces: vec![namespace("*", "*"), namespace("Main", main_crate)],
    }
}

fn names(imports: &Imports) -> Vec<String> {
    imports.iter().iter().map(|(name, _)| name.clone()).collect()
}

fn entry<'a>(imports: &'a Imports, name: &str) -> Option<&'a ImportValue> {
    imports
        .iter()
        .iter()
        .find(|(n, _)| n == name)
        .map(|(_, v)| v)
}

#[test]
fn new_declares_nothing() {
    let imports = Imports::new(&library("gtk"));
    assert!(imports.iter().is_empty());
}

#[test]
fn crate_paths_become_crate_relative() {
    let mut imports = Imports::new(&library("gtk"));
    imports.add("gtk::Widget", None);
    imports.add("glib::Object", None);
    assert_eq!(names(&imports), vec!["crate::Widget", "glib::Object"]);
}

#[test]
fn own_crate_name_is_not_declared() {
    let mut imports = Imports::new(&library("gtk"));
    imports.add("gtk", None);
    assert!(imports.iter().is_empty());
}

#[test]
fn other_names_stay_as_they_are() {
    let mut imports = Imports::new(&library("gtk"));
    imports.add("gtkx::Widget", None);
    imports.add("std::ptr", None);
    imports.add("libc", None);
    assert_eq!(names(&imports), vec!["gtkx::Widget", "libc", "std::ptr"]);
}

#[test]
fn entries_come_sorted_by_name() {
    let mut imports = Imports::new(&library("gtk"));
    for name in ["std::ptr", "glib::translate::*", "gdk", "crate::Widget", "glib"] {
        imports.add(name, None);
    }
    assert_eq!(
        names(&imports),
        vec!["crate::Widget", "gdk", "glib", "glib::translate::*", "std::ptr"]
    );
}

#[test]
fn gobject_crate_is_glib() {
    let mut imports = Imports::new(&library("gobject"));
    imports.add("glib::Object", None);
    imports.add("gobject::Value", None);
    assert_eq!(names(&imports), vec!["crate::Object", "gobject::Value"]);
}

#[test]
fn lowest_version_is_kept() {
    let mut imports = Imports::new(&library("gtk"));
    imports.add("glib::Value", Some(Version(3, 0, 0)));
    assert_eq!(entry(&imports, "glib::Value").unwrap().0, Some(Version(3, 0, 0)));
    imports.add("glib::Value", Some(Version(2, 10, 0)));
    assert_eq!(entry(&imports, "glib::Value").unwrap().0, Some(Version(2, 10, 0)));
    imports.add("glib::Value", Some(Version(2, 12, 0)));
    assert_eq!(entry(&imports, "glib::Value").unwrap().0, Some(Version(2, 10, 0)));
    imports.add("glib::Value", None);
    assert_eq!(entry(&imports, "glib::Value").unwrap().0, None);
    imports.add("glib::Value", Some(Version(1, 0, 0)));
    assert_eq!(entry(&imports, "glib::Value").unwrap().0, None);
}

#[test]
fn adding_twice_is_adding_once() {
    let mut once = Imports::new(&library("gtk"));
    once.add("glib::Value", Some(Version(2, 4, 0)));
    let mut twice = Imports::new(&library("gtk"));
    twice.add("glib::Value", Some(Version(2, 4, 0)));
    twice.add("glib::Value", Some(Version(2, 4, 0)));
    assert_eq!(once.iter(), twice.iter());
}

#[test]
fn order_of_adds_does_not_matter() {
    let mut ab = Imports::new(&library("gtk"));
    ab.add("glib::Value", Some(Version(2, 4, 0)));
    ab.add("gtk::Button", None);
    ab.add("glib::Value", Some(Version(2, 2, 1)));
    let mut ba = Imports::new(&library("gtk"));
    ba.add("glib::Value", Some(Version(2, 2, 1)));
    ba.add("gtk::Button", None);
    ba.add("glib::Value", Some(Version(2, 4, 0)));
    assert_eq!(ab.iter(), ba.iter());
}

#[test]
fn constraint_is_recorded_and_cleared_by_later_adds() {
    let mut imports = Imports::new(&library("gtk"));
    imports.add_with_constraint("glib::Bytes", None, Some("v2_34"));
    assert_eq!(
        entry(&imports, "glib::Bytes").unwrap(),
        &(None, vec!["v2_34".to_string()])
    );
    imports.add_with_constraint("glib::Bytes", Some(Version(1, 0, 0)), Some("dox"));
    assert_eq!(
        entry(&imports, "glib::Bytes").unwrap(),
        &(None, vec!["dox".to_string()])
    );
    imports.add("glib::Bytes", None);
    assert_eq!(entry(&imports, "glib::Bytes").unwrap(), &(None, Vec::<String>::new()));
}

#[test]
fn defined_name_is_not_declared() {
    let mut imports = Imports::with_defined(&library("gtk"), "Button");
    imports.add("gtk::Button", None);
    imports.add_with_constraint("gtk::Button", None, Some("v3_10"));
    imports.add_used_type("Button", None);
    assert!(imports.iter().is_empty());
    imports.add("gtk::Label", None);
    assert_eq!(names(&imports), vec!["crate::Label"]);
}

#[test]
fn used_types_are_local_unless_paths() {
    let mut imports = Imports::new(&library("gtk"));
    imports.add_used_type("Widget", Some(Version(3, 0, 0)));
    imports.add_used_type("glib::GString", None);
    assert_eq!(names(&imports), vec!["crate::Widget"]);
    assert_eq!(entry(&imports, "crate::Widget").unwrap().0, Some(Version(3, 0, 0)));
}

#[test]
fn used_types_are_added_in_turn() {
    let mut imports = Imports::new(&library("gtk"));
    let used = vec![
        "Window".to_string(),
        "gio::Menu".to_string(),
        "Adjustment".to_string(),
    ];
    imports.add_used_types(&used, Some(Version(3, 20, 0)));
    assert_eq!(names(&imports), vec!["crate::Adjustment", "crate::Window"]);
}

#[test]
fn first_separator_decides() {
    let mut imports = Imports::new(&library("gtk"));
    imports.add("gtk::gtk::Thing", None);
    imports.add("gtk::", None);
    assert_eq!(names(&imports), vec!["crate::", "crate::gtk::Thing"]);
}

#[test]
fn default_has_no_crate() {
    let mut imports = Imports::default();
    imports.add("::x", None);
    imports.add("", None);
    assert_eq!(names(&imports), vec!["crate::x"]);
}

#[test]
fn no_name_lists_two_constraints() {
    let mut imports = Imports::new(&library("gtk"));
    imports.add_with_constraint("glib::A", None, Some("v1"));
    imports.add_with_constraint("glib::A", None, Some("v2"));
    imports.add_with_constraint("glib::B", None, Some("v1"));
    imports.add_used_types(&["X".to_string(), "Y".to_string()], None);
    for (_, (_, constraints)) in imports.iter() {
        assert!(constraints.len() <= 1);
    }
    assert_eq!(entry(&imports, "glib::A").unwrap().1, vec!["v2".to_string()]);
}

#[test]
fn clones_hold_the_same_declarations() {
    let mut imports = Imports::new(&library("gtk"));
    imports.add_with_constraint("glib::A", Some(Version(1, 2, 0)), Some("v1"));
    imports.add("gtk::B", None);
    let copy = imports.clone();
    assert_eq!(copy.iter(), imports.iter());
}

#[test]
fn used_types_depend_only_on_which_types() {
    let mut a = Imports::new(&library("gtk"));
    a.add("gtk::Widget", Some(Version(2, 0, 0)));
    let mut b = a.clone();
    let ts1 = vec!["Widget".to_string(), "Label".to_string(), "gio::File".to_string()];
    let ts2 = vec![
        "Label".to_string(),
        "gio::File".to_string(),
        "Widget".to_string(),
        "Label".to_string(),
    ];
    a.add_used_types(&ts1, Some(Version(3, 0, 0)));
    b.add_used_types(&ts2, Some(Version(3, 0, 0)));
    assert_eq!(a.iter(), b.iter());
    assert_eq!(entry(&a, "crate::Widget").unwrap().0, Some(Version(2, 0, 0)));
}
