use proxy_fs::text::{child_path, local_path, relative_path, text_of};

#[test]
fn leading_slashes_are_dropped() {
    assert_eq!(relative_path("/a/b"), "a/b");
    assert_eq!(relative_path("///a//b/"), "a//b/");
    assert_eq!(relative_path("a"), "a");
    assert_eq!(relative_path("/"), "");
    assert_eq!(relative_path(""), "");
    assert_eq!(relative_path("/\u{e9}/"), "\u{e9}/");
}

#[test]
fn a_path_is_taken_from_the_root() {
    assert_eq!(local_path("/srv", "/a/b"), "/srv/a/b");
    assert_eq!(local_path("/srv", "a/b"), "/srv/a/b");
    assert_eq!(local_path("/srv/", "//a"), "/srv/a");
    assert_eq!(local_path("/", "/a"), "/a");
    assert_eq!(local_path("", "a"), "a");
    assert_eq!(local_path("/srv", "/"), "/srv/");
}

#[test]
fn a_local_path_is_what_joining_gives() {
    for root in ["/srv", "/srv/", "/", "", "rel/dir", "/\u{e9}"] {
        for path in ["/a/b", "a", "/", "", "///x/", "/\u{1f980}"] {
            let joined = std::path::Path::new(root).join(path.trim_start_matches('/'));
            assert_eq!(local_path(root, path), joined.to_str().unwrap());
        }
    }
}

#[test]
fn a_child_stands_below_its_parent() {
    assert_eq!(child_path("/", "etc"), "/etc");
    assert_eq!(child_path("/etc", "passwd"), "/etc/passwd");
    assert_eq!(child_path("", "x"), "/x");
    assert_eq!(child_path("/etc", ""), "/etc/");
    assert_ne!(child_path("/etc", "a"), child_path("/etc", "b"));
}

#[test]
fn only_valid_utf8_is_text() {
    assert_eq!(text_of(b"plain"), Some("plain".to_string()));
    assert_eq!(text_of("\u{e9}\u{1f980}".as_bytes()), Some("\u{e9}\u{1f980}".to_string()));
    assert_eq!(text_of(&[]), Some(String::new()));
    assert_eq!(text_of(&[0xff]), None);
    assert_eq!(text_of(&[0xed, 0xa0, 0x80]), None);
}
