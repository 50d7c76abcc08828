//! Texts, byte strings and paths.
use lop::config::ConfigError;
use lop::filepath::{clone_paths, contains_path, FilePath};
use lop::text;

fn path(text: &str) -> FilePath {
    FilePath::from_text(text)
}

#[test]
fn white_space_is_what_the_language_says() {
    for number in 0..=u32::from(char::MAX) {
        if let Some(c) = char::from_u32(number) {
            assert_eq!(text::is_white_space(c), c.is_whitespace(), "{number:x}");
        }
    }
}

#[test]
fn texts_are_trimmed_and_split() {
    for sample in ["", " ", "a", " a ", "\t\u{3000}a b\n", "a\u{a0}"] {
        assert_eq!(text::trim(sample), sample.trim());
    }
    for sample in ["", ":", "a", "a:b", ":a::b:", "päth:x"] {
        let pieces: Vec<String> = sample.split(':').map(str::to_owned).collect();
        assert_eq!(text::split(sample, ':'), pieces);
    }
    for sample in ["", "one", "one two", "  one\ttwo three", "one  "] {
        assert_eq!(
            text::nth_word_1(sample).as_deref(),
            sample.split_whitespace().nth(1)
        );
    }
}

#[test]
fn numbers_are_written_and_read() {
    for number in [0u64, 7, 10, 909, u64::from(u32::MAX), u64::MAX] {
        assert_eq!(text::decimal(number), number.to_string());
        assert_eq!(text::parse_number(&text::decimal(number), u64::MAX), Some(number));
    }
    for sample in [
        "", "+", "+5", "-5", "05", " 5", "5 ", "5x", "4294967295", "4294967296",
        "99999999999999999999999",
    ] {
        assert_eq!(
            text::parse_number(sample, u64::from(u32::MAX)),
            sample.parse::<u32>().ok().map(u64::from),
            "{sample:?}"
        );
    }
    assert_eq!(text::parse_number("18446744073709551616", u64::MAX), None);
}

#[test]
fn bytes_are_read_as_text() {
    for sample in [
        &b"plain"[..],
        &b""[..],
        &b"a\xffb"[..],
        &b"\xe2\x82"[..],
        "grün\u{1f600}".as_bytes(),
    ] {
        assert_eq!(
            FilePath::new(sample.to_vec()).display(),
            String::from_utf8_lossy(sample)
        );
    }
    assert_eq!(text::to_bytes("grün"), "grün".as_bytes());
    assert_eq!(text::from_ascii(b"abc").as_deref(), Some("abc"));
    assert_eq!(text::from_ascii("ü".as_bytes()), None);
}

#[test]
fn texts_are_quoted_as_they_are_debugged() {
    for sample in ["", "plain", "with \"quotes\"", "tab\there", "line\n", "back\\slash", "\u{7f}"] {
        let root = ConfigError::EmptyRoot { root: sample.to_owned() };
        assert_eq!(
            root.message(),
            format!("invalid configuration: root {sample:?} is empty")
        );
    }
}

#[test]
fn texts_are_compared_and_joined() {
    let samples = ["", "a", "ab", "b", "B", "ä", "a\u{10ffff}"];
    for left in samples {
        for right in samples {
            assert_eq!(text::is_text_before(left, right), left < right);
            assert_eq!(text::same_text(left, right), left == right);
            assert_eq!(text::starts_with(left, right), left.starts_with(right));
            assert_eq!(text::contains_part(left, right), left.contains(right));
        }
    }
    let words = ["x".to_owned(), "y".to_owned(), "z".to_owned()].to_vec();
    assert_eq!(text::join_texts(&words, ", "), "x, y, z");
    assert_eq!(text::join_texts(&Vec::new(), ", "), "");
    assert_eq!(text::concat5("a", "b", "", "c", "d"), "abcd");
    let sorted = text::insert_sorted(text::insert_sorted(words, "y"), "ya");
    assert_eq!(sorted, ["x", "y", "ya", "z"]);
    assert_eq!(text::insert_ordered(vec![1, 5], 3), [1, 3, 5]);
    assert_eq!(text::insert_ordered(vec![1, 5], 5), [1, 5]);
}

#[test]
fn byte_strings_are_taken_apart() {
    assert_eq!(
        text::split_at_bytes(b"a\0b\nc", 0, 10),
        [b"a".to_vec(), b"b".to_vec(), b"c".to_vec()]
    );
    assert_eq!(text::split_at_bytes(b"", 0, 10), [Vec::<u8>::new()]);
    assert_eq!(text::strip_bytes(b"HEAD abc", "HEAD "), Some(b"abc".to_vec()));
    assert_eq!(text::strip_bytes(b"HEA", "HEAD "), None);
    assert!(text::bytes_are(b"bare", "bare"));
    assert!(!text::bytes_are(b"bare ", "bare"));
}

fn samples() -> Vec<&'static str> {
    vec![
        "", "/", ".", "..", "a", "a/b", "a//b", "a/./b", "./a", "a/.", "/a", "//a", "/a/", "/a/b",
        "/a/../b", "/a/b/.", "a/..", "/.", "/..", "a.b", "/a-b", "/ab", "/a/b/c",
    ]
}

#[test]
fn paths_behave_like_paths() {
    for left in samples() {
        let one = path(left);
        let expected = std::path::Path::new(left);
        assert_eq!(one.is_absolute(), expected.is_absolute(), "{left:?}");
        assert_eq!(
            one.file_name(),
            expected.file_name().map(|name| name.to_str().unwrap().as_bytes().to_vec()),
            "{left:?}"
        );
        match (one.parent(), expected.parent()) {
            (None, None) => {}
            (Some(parent), Some(expected)) => {
                assert_eq!(parent.display(), expected.to_str().unwrap(), "{left:?}");
            }
            (parent, expected) => panic!("{left:?}: {parent:?} {expected:?}"),
        }
        for right in samples() {
            let other = path(right);
            let expected_other = std::path::Path::new(right);
            assert_eq!(one.same_as(&other), expected == expected_other, "{left:?} {right:?}");
            assert_eq!(one == other, expected == expected_other, "{left:?} {right:?}");
            assert_eq!(
                one.is_within(&other),
                expected.starts_with(expected_other),
                "{left:?} {right:?}"
            );
            assert_eq!(one.is_before(&other), expected < expected_other, "{left:?} {right:?}");
            assert_eq!(
                one.join(&other).display(),
                expected.join(expected_other).to_str().unwrap(),
                "{left:?} {right:?}"
            );
        }
    }
}

#[test]
fn paths_are_shown_as_far_as_they_are_text() {
    let odd = FilePath::new(b"/tmp/\xff".to_vec());
    assert_eq!(odd.display(), "/tmp/\u{fffd}");
    let paths = vec![path("/a"), path("/b/")];
    assert!(contains_path(&paths, &path("/b")));
    assert!(!contains_path(&paths, &path("/c")));
    assert_eq!(clone_paths(&paths), paths);
}
