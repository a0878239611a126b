use dir_picker::names::precedes;
use dir_picker::paths::{display_name, split};

#[test]
fn a_proper_prefix_comes_first() {
    assert!(precedes("proj", "project"));
    assert!(!precedes("project", "proj"));
}

#[test]
fn no_name_precedes_itself() {
    assert!(!precedes("alpha", "alpha"));
    assert!(!precedes("", ""));
}

#[test]
fn names_are_ordered_by_code_point() {
    assert!(precedes("Zeta", "alpha"));
    assert!(precedes("alpha", "beta"));
    assert!(precedes("beta", "b\u{e9}ta"));
    assert!(!precedes("b\u{e9}ta", "beta"));
}

#[test]
fn split_keeps_empty_pieces() {
    assert_eq!(split("/usr/bin::/bin:", ':'), vec!["/usr/bin", "", "/bin", ""]);
    assert_eq!(split("", ':'), vec![""]);
    assert_eq!(split("abc", ':'), vec!["abc"]);
}

#[test]
fn display_name_is_the_final_segment() {
    assert_eq!(display_name("/tmp/proj/alpha"), Some("alpha".to_string()));
    assert_eq!(display_name("alpha"), Some("alpha".to_string()));
    assert_eq!(display_name("/tmp/proj/beta/"), Some("beta".to_string()));
    assert_eq!(display_name("/tmp/proj//gamma/."), Some("gamma".to_string()));
    assert_eq!(display_name("/tmp/.hidden"), Some(".hidden".to_string()));
}

#[test]
fn display_name_is_absent_where_nothing_is_named() {
    assert_eq!(display_name("/"), None);
    assert_eq!(display_name(""), None);
    assert_eq!(display_name("."), None);
    assert_eq!(display_name("/tmp/proj/.."), None);
    assert_eq!(display_name(".."), None);
}

#[test]
fn display_name_agrees_with_the_standard_library() {
    for path in ["/tmp/proj/alpha", "a/b/", "a/./", "./a", "/", "..", "a/..", "a//b", ".", "x/.y", "\u{e9}t\u{e9}/\u{fc}"] {
        let expected = std::path::Path::new(path).file_name().map(|name| name.to_str().unwrap().to_string());
        assert_eq!(display_name(path), expected, "{}", path);
    }
}

#[test]
fn the_order_of_names_is_that_of_the_standard_library() {
    let names = ["", "a", "A", "ab", "b", "proj", "project", "\u{e9}", "z\u{e9}", "zz", "\u{1f600}", "~"];
    for a in names {
        for b in names {
            assert_eq!(precedes(a, b), a < b, "{:?} {:?}", a, b);
        }
    }
}
