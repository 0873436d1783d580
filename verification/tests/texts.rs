use sshtun::paths::{holds_path, is_same_path, join_path, strip_tilde};
use sshtun::text::{
    decode, find_char, lower, rfind_char, split_on, split_whitespace, strip_prefix, trim,
    trim_end_matches, trim_matches, trim_start_matches,
};

const SAMPLES: [&str; 12] = [
    "",
    " ",
    "a",
    " a ",
    "\u{a0}a\u{3000}b\t",
    "a,b,,c",
    ",",
    "\"quoted\"",
    "\"",
    "tuntun1tun",
    "x/32/32",
    "\u{e9}\u{1f600} z",
];

#[test]
fn texts_are_taken_apart_as_usual() {
    for s in SAMPLES {
        assert_eq!(trim(s), s.trim());
        assert_eq!(split_whitespace(s), s.split_whitespace().collect::<Vec<_>>());
        assert_eq!(split_on(s, ','), s.split(',').collect::<Vec<_>>());
        assert_eq!(trim_matches(s, '"'), s.trim_matches('"'));
        assert_eq!(trim_start_matches(s, "tun"), s.trim_start_matches("tun"));
        assert_eq!(trim_end_matches(s, "/32"), s.trim_end_matches("/32"));
        assert_eq!(strip_prefix(s, "a"), s.strip_prefix("a").map(|t| t.to_string()));
        assert_eq!(find_char(s, 'a'), s.chars().position(|c| c == 'a'));
        assert_eq!(lower(s), s.to_lowercase());
    }
    assert_eq!(rfind_char("a:b:c", ':'), Some(3));
    assert_eq!(rfind_char("abc", ':'), None);
    assert_eq!(lower("HoSt \u{c9}"), "host \u{e9}");
}

#[test]
fn bytes_are_decoded() {
    assert_eq!(decode(&b"plain".to_vec()), "plain");
    assert_eq!(decode(&vec![b'x', 0xfe]), "x\u{fffd}");
}

#[test]
fn paths_are_joined() {
    assert_eq!(join_path("/home/me", ".ssh"), "/home/me/.ssh");
    assert_eq!(join_path("/home/me/", ".ssh"), "/home/me/.ssh");
    assert_eq!(join_path("/home/me", "/etc"), "/etc");
    assert_eq!(join_path("/home/me", ""), "/home/me/");
    assert_eq!(join_path("", "a"), "a");
    for (base, rel) in [("/", "a"), ("a", "b/c"), ("a/", ""), ("", ""), ("", "/x")] {
        let joined = std::path::Path::new(base).join(rel);
        assert_eq!(join_path(base, rel), joined.to_str().unwrap());
    }
}

#[test]
fn paths_behind_a_tilde_are_found() {
    let samples = [
        "~", "~/", "~/x", "~//x", "~/./x", "~/x/", "~/x/.", "~/x//./", "~/.", "~/./", "~/x//y",
        "~/../x", "~/..", "~/.x", "~/x/./y/", "~x", "./~", "/~", "", "x/~", "~/~/x", "~/a b/\u{e9}/",
    ];
    for s in samples {
        let expected = std::path::Path::new(s)
            .strip_prefix("~")
            .ok()
            .map(|rest| rest.to_string_lossy().trim_start_matches('/').to_string());
        assert_eq!(strip_tilde(s), expected, "{}", s);
    }
}

#[test]
fn paths_are_compared_by_their_parts() {
    let samples = [
        "", ".", "./", "/", "//", "/.", "a", "a/", "./a", "a/.", "a//b", "a/b", "a/./b", "a/../b",
        "/a", "//a", "/./a", "/a/b", "..", "../", ".a", "a/b/./", "/a//b/",
    ];
    for p in samples {
        for q in samples {
            let expected = std::path::Path::new(p) == std::path::Path::new(q);
            assert_eq!(is_same_path(p, q), expected, "{} {}", p, q);
        }
    }
    let known = vec!["/x//y".to_string()];
    assert!(holds_path(&known, "/x/y"));
    assert!(!holds_path(&known, "x/y"));
}
