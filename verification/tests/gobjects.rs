use std::str::FromStr;

use gir::gobjects::{
    conversion_type_from_str, parse_object, parse_status_shorthand, parse_status_shorthands,
    parse_toml, ref_mode_from_str, resolve_type_ids, ConversionType, GObject, GObjects, GStatus,
    RefMode,
};
use gir::library::{Concurrency, Library, Namespace, TypeId};
use gir::name_map::NameMap;
use gir::toml_value::TomlValue;
use gir::version::Version;

fn s(v: &str) -> TomlValue {
    TomlValue::String(v.to_string())
}

fn table(entries: Vec<(&str, TomlValue)>) -> TomlValue {
    TomlValue::Table(entries.into_iter().map(|(k, v)| (k.to_string(), v)).collect())
}

fn object(name: &str, more: Vec<(&str, TomlValue)>) -> TomlValue {
    let mut entries = vec![("name", s(name))];
    entries.extend(more);
    table(entries)
}

fn get<'a>(objects: &'a GObjects, name: &str) -> &'a GObject {
    objects.get(name).unwrap()
}

#[test]
fn status_predicates() {
    assert!(GStatus::Ignore.ignored());
    assert!(!GStatus::Comment.ignored());
    assert!(GStatus::Generate.need_generate());
    assert!(!GStatus::Manual.need_generate());
    assert!(GStatus::Generate.normal());
    assert!(GStatus::Manual.normal());
    assert!(!GStatus::Comment.normal());
    assert!(!GStatus::Ignore.normal());
    assert_eq!(GStatus::default(), GStatus::Ignore);
}

#[test]
fn status_from_str() {
    assert_eq!(GStatus::from_str("manual"), Ok(GStatus::Manual));
    assert_eq!(GStatus::from_str("generate"), Ok(GStatus::Generate));
    assert_eq!(GStatus::from_str("comment"), Ok(GStatus::Comment));
    assert_eq!(GStatus::from_str("ignore"), Ok(GStatus::Ignore));
    assert_eq!(
        GStatus::from_str("Manual"),
        Err("Wrong object status: \"Manual\"".to_string())
    );
    assert_eq!("generate".parse::<GStatus>(), Ok(GStatus::Generate));
}

#[test]
fn ref_modes() {
    assert_eq!(ref_mode_from_str("none"), Some(RefMode::ByValue));
    assert_eq!(ref_mode_from_str("ref"), Some(RefMode::ByRef));
    assert_eq!(ref_mode_from_str("ref-mut"), Some(RefMode::ByRefMut));
    assert_eq!(ref_mode_from_str("ref-immut"), Some(RefMode::ByRefImmut));
    assert_eq!(ref_mode_from_str("ref-fake"), Some(RefMode::ByRefFake));
    assert_eq!(ref_mode_from_str("ref_mut"), None);
    assert_eq!(ref_mode_from_str(""), None);
}

#[test]
fn conversion_types() {
    assert_eq!(conversion_type_from_str("direct"), Some(ConversionType::Direct));
    assert_eq!(conversion_type_from_str("scalar"), Some(ConversionType::Scalar));
    assert_eq!(conversion_type_from_str("pointer"), Some(ConversionType::Pointer));
    assert_eq!(conversion_type_from_str("borrow"), Some(ConversionType::Borrow));
    assert_eq!(conversion_type_from_str("unknown"), Some(ConversionType::Unknown));
    assert_eq!(conversion_type_from_str("Direct"), None);
}

#[test]
fn default_object() {
    let o = GObject::default();
    assert_eq!(o.name, "Default");
    assert_eq!(o.status, GStatus::Ignore);
    assert_eq!(o.concurrency, Concurrency::Local);
    assert!(o.generate_display_trait);
    assert!(!o.must_use && !o.subclassing && !o.use_boxed_functions);
    assert!(o.manual_traits.is_empty());
    assert_eq!(o.version, None);
    assert_eq!(o.align, None);
}

#[test]
fn object_with_only_a_name() {
    let o = parse_object(&object("Gtk.Widget", vec![]), Concurrency::Send, false);
    assert_eq!(o.name, "Gtk.Widget");
    assert_eq!(o.status, GStatus::Ignore);
    assert_eq!(o.concurrency, Concurrency::Send);
    assert!(!o.generate_display_trait);
    assert_eq!(o.final_type, None);
    assert_eq!(o.module_name, None);
    assert_eq!(o.type_id, None);
}

#[test]
fn object_with_options() {
    let v = object(
        "Gtk.Button",
        vec![
            ("status", s("generate")),
            ("module_name", s("button")),
            ("version", s("3.22")),
            ("cfg_condition", s("unix")),
            ("final_type", TomlValue::Boolean(true)),
            ("trait_name", s("ButtonExtManual")),
            ("concurrency", s("send+sync")),
            ("ref_mode", s("ref-mut")),
            ("conversion_type", s("scalar")),
            ("must_use", TomlValue::Boolean(true)),
            ("use_boxed_functions", TomlValue::Boolean(true)),
            ("generate_display_trait", TomlValue::Boolean(true)),
            ("subclassing", TomlValue::Boolean(true)),
            (
                "manual_traits",
                TomlValue::Array(vec![s("A"), TomlValue::Integer(3), s("B")]),
            ),
            ("align", TomlValue::Integer(8)),
        ],
    );
    let o = parse_object(&v, Concurrency::Local, false);
    assert_eq!(o.status, GStatus::Generate);
    assert_eq!(o.module_name.as_deref(), Some("button"));
    assert_eq!(o.version, Some(Version(3, 22, 0)));
    assert_eq!(o.cfg_condition.as_deref(), Some("unix"));
    assert_eq!(o.final_type, Some(true));
    assert_eq!(o.trait_name.as_deref(), Some("ButtonExtManual"));
    assert_eq!(o.concurrency, Concurrency::SendSync);
    assert_eq!(o.ref_mode, Some(RefMode::ByRefMut));
    assert_eq!(o.conversion_type, Some(ConversionType::Scalar));
    assert!(o.must_use && o.use_boxed_functions && o.generate_display_trait && o.subclassing);
    assert_eq!(o.manual_traits, vec!["A".to_string(), "B".to_string()]);
    assert_eq!(o.align, Some(8));
}

#[test]
fn wrong_values_fall_back() {
    let v = object(
        "Gtk.Label",
        vec![
            ("status", s("later")),
            ("concurrency", s("sync")),
            ("ref_mode", s("by-ref")),
            ("must_use", s("yes")),
            ("manual_traits", s("A")),
            ("module_name", TomlValue::Integer(1)),
        ],
    );
    let o = parse_object(&v, Concurrency::Send, true);
    assert_eq!(o.status, GStatus::Ignore);
    assert_eq!(o.concurrency, Concurrency::Send);
    assert_eq!(o.ref_mode, None);
    assert!(!o.must_use);
    assert!(o.manual_traits.is_empty());
    assert_eq!(o.module_name, None);
    assert!(o.generate_display_trait);
}

#[test]
fn trait_setting_gives_final_type() {
    let o = parse_object(&object("A", vec![("trait", TomlValue::Boolean(false))]), Concurrency::Local, true);
    assert_eq!(o.final_type, Some(true));
    let o = parse_object(&object("A", vec![("trait", TomlValue::Boolean(true))]), Concurrency::Local, true);
    assert_eq!(o.final_type, Some(false));
    let o = parse_object(
        &object(
            "A",
            vec![("trait", TomlValue::Boolean(true)), ("final_type", TomlValue::Boolean(true))],
        ),
        Concurrency::Local,
        true,
    );
    assert_eq!(o.final_type, Some(true));
}

#[test]
fn alignment_must_be_a_power_of_two_in_u32() {
    let align = |v: i64| parse_object(&object("A", vec![("align", TomlValue::Integer(v))]), Concurrency::Local, true).align;
    assert_eq!(align(1), Some(1));
    assert_eq!(align(4), Some(4));
    assert_eq!(align(1 << 31), Some(1 << 31));
    assert_eq!(align(0), None);
    assert_eq!(align(3), None);
    assert_eq!(align(12), None);
    assert_eq!(align(-4), None);
    assert_eq!(align(1 << 32), None);
    assert_eq!(align(i64::MIN), None);
}

#[test]
fn versions_are_read_from_the_left() {
    let version = |v: &str| parse_object(&object("A", vec![("version", s(v))]), Concurrency::Local, true).version;
    assert_eq!(version("3"), Some(Version(3, 0, 0)));
    assert_eq!(version("2.58.1"), Some(Version(2, 58, 1)));
    assert_eq!(version("1.2.3.4"), Some(Version(1, 2, 3)));
    assert_eq!(version("2.x.5"), Some(Version(2, 0, 0)));
    assert_eq!(version("x"), Some(Version(0, 0, 0)));
    assert_eq!(version("70000"), Some(Version(0, 0, 0)));
    assert_eq!(version("+7.01"), Some(Version(7, 1, 0)));
}

#[test]
fn later_tables_win() {
    let objects = TomlValue::Array(vec![
        object("Gtk.A", vec![("status", s("manual"))]),
        object("Gtk.B", vec![]),
        object("Gtk.A", vec![("status", s("comment"))]),
    ]);
    let parsed = parse_toml(&objects, Concurrency::Local, true);
    assert_eq!(parsed.len(), 2);
    assert_eq!(get(&parsed, "Gtk.A").status, GStatus::Comment);
    assert_eq!(get(&parsed, "Gtk.B").status, GStatus::Ignore);
    let names: Vec<&str> = parsed.entries().iter().map(|(n, _)| n.as_str()).collect();
    assert_eq!(names, vec!["Gtk.A", "Gtk.B"]);
}

fn options(lists: Vec<(&str, Vec<&str>)>) -> TomlValue {
    table(vec![(
        "options",
        table(
            lists
                .into_iter()
                .map(|(k, names)| (k, TomlValue::Array(names.into_iter().map(s).collect())))
                .collect(),
        ),
    )])
}

#[test]
fn shorthands_add_plain_objects() {
    let mut objects = parse_toml(
        &TomlValue::Array(vec![object("Gtk.Widget", vec![("status", s("generate"))])]),
        Concurrency::Local,
        true,
    );
    let toml = options(vec![
        ("manual", vec!["Gtk.Allocation"]),
        ("generate", vec!["Gtk.Button", "Gtk.Label"]),
        ("ignore", vec!["Gtk.Old"]),
    ]);
    parse_status_shorthands(&mut objects, &toml, Concurrency::SendSync, false);
    assert_eq!(objects.len(), 5);
    assert_eq!(get(&objects, "Gtk.Widget").status, GStatus::Generate);
    assert_eq!(get(&objects, "Gtk.Widget").concurrency, Concurrency::Local);
    let button = get(&objects, "Gtk.Button");
    assert_eq!(button.status, GStatus::Generate);
    assert_eq!(button.concurrency, Concurrency::SendSync);
    assert!(!button.generate_display_trait);
    assert_eq!(get(&objects, "Gtk.Allocation").status, GStatus::Manual);
    assert_eq!(get(&objects, "Gtk.Old").status, GStatus::Ignore);
}

#[test]
fn one_shorthand_list() {
    let mut objects: GObjects = NameMap::new();
    let toml = options(vec![("comment", vec!["Gtk.X"])]);
    parse_status_shorthand(&mut objects, GStatus::Comment, &toml, Concurrency::Local, true);
    parse_status_shorthand(&mut objects, GStatus::Manual, &toml, Concurrency::Local, true);
    assert_eq!(objects.len(), 1);
    assert_eq!(get(&objects, "Gtk.X").status, GStatus::Comment);
    let mut none: GObjects = NameMap::new();
    parse_status_shorthand(&mut none, GStatus::Comment, &TomlValue::Integer(1), Concurrency::Local, true);
    assert_eq!(none.len(), 0);
}

fn namespace(name: &str, types: Vec<&str>) -> Namespace {
    Namespace {
        name: name.to_string(),
        crate_name: name.to_lowercase(),
        package_name: None,
        shared_library: Vec::new(),
        versions: Vec::new(),
        types: types.into_iter().map(|t| t.to_string()).collect(),
    }
}

#[test]
fn type_ids_are_resolved() {
    let library = Library {
        namespaces: vec![
            namespace("*", vec!["gint", "utf8"]),
            namespace("Gtk", vec!["Widget", "Button"]),
            namespace("GLib", vec!["Error"]),
        ],
    };
    let mut objects = parse_toml(
        &TomlValue::Array(vec![
            object("Gtk.Button", vec![]),
            object("GLib.Error", vec![]),
            object("Gtk.*", vec![]),
            object("utf8", vec![]),
            object("Gdk.Window", vec![]),
        ]),
        Concurrency::Local,
        true,
    );
    resolve_type_ids(&mut objects, &library);
    assert_eq!(get(&objects, "Gtk.Button").type_id, Some(TypeId { ns_id: 1, id: 1 }));
    assert_eq!(get(&objects, "GLib.Error").type_id, Some(TypeId { ns_id: 2, id: 0 }));
    assert_eq!(get(&objects, "Gtk.*").type_id, None);
    assert_eq!(get(&objects, "utf8").type_id, Some(TypeId { ns_id: 0, id: 1 }));
    assert_eq!(get(&objects, "Gdk.Window").type_id, None);
    assert_eq!(objects.len(), 5);
}
