use gir::library::{parse_concurrency, Concurrency};
use gir::nameutil::higher_crate_name;
use gir::text::{find_dot, find_path_sep, str_eq, str_lt};
use gir::version::{opt_version_less, parse_u16, parse_version, Version};

#[test]
fn string_order_is_string_order() {
    let words = ["", "a", "ab", "b", "B", "é", "zz", "crate::X", "crate", "ä", "z"];
    for a in words {
        for b in words {
            assert_eq!(str_lt(a, b), a < b, "{} < {}", a, b);
            assert_eq!(str_eq(a, b), a == b);
        }
    }
}

#[test]
fn separators() {
    assert_eq!(find_path_sep("a::b::c"), Some(1));
    assert_eq!(find_path_sep("é::b"), Some(1));
    assert_eq!(find_path_sep("a:b"), None);
    assert_eq!(find_path_sep(":"), None);
    assert_eq!(find_path_sep(""), None);
    assert_eq!(find_dot("Gtk.Widget"), Some(3));
    assert_eq!(find_dot("Widget"), None);
}

#[test]
fn higher_crates() {
    assert_eq!(higher_crate_name("gobject"), "glib");
    assert_eq!(higher_crate_name("gtk"), "gtk");
}

#[test]
fn concurrency_settings() {
    assert_eq!(parse_concurrency("none"), Some(Concurrency::Local));
    assert_eq!(parse_concurrency("send"), Some(Concurrency::Send));
    assert_eq!(parse_concurrency("send+sync"), Some(Concurrency::SendSync));
    assert_eq!(parse_concurrency("sync"), None);
    assert_eq!(Concurrency::default(), Concurrency::Local);
}

#[test]
fn numbers_read_as_str_parse_reads_them() {
    for s in ["0", "65535", "65536", "+12", "-1", "", "+", "007", "1a", "99999999999"] {
        assert_eq!(parse_u16(s), s.parse::<u16>().ok(), "{}", s);
    }
}

#[test]
fn versions() {
    assert_eq!(parse_version("2.58.1"), Version(2, 58, 1));
    assert_eq!(parse_version("3.22"), Version(3, 22, 0));
    assert_eq!(parse_version(""), Version(0, 0, 0));
    assert_eq!(parse_version("1..3"), Version(1, 0, 0));
    assert!(Version(1, 2, 3).lt(&Version(1, 3, 0)));
    assert!(!Version(1, 3, 0).lt(&Version(1, 3, 0)));
    assert!(opt_version_less(None, Some(Version(0, 0, 0))));
    assert!(!opt_version_less(Some(Version(0, 0, 0)), None));
    assert!(!opt_version_less(None, None));
}
