//! Text and path functions, held against the standard library's own.
use stage1::names::{name_parts, name_text};
use stage1::paths::{
    is_root_path, join_path, path_file_name, path_is_below, path_names, path_parent, quote_path,
    strip_root,
};
use stage1::text::{
    cat3, contains_char, decimal_text, holds_text, join_texts, parse_decimal, parse_hex, same_text,
    signed_text, split_char, split_lines, split_once, split_words, starts_with, starts_with_char,
    strip_all_leading, strip_leading, strip_prefix, trim, white,
};
use std::path::Path;

const TEXTS: [&str; 24] = [
    "",
    " ",
    "a",
    "a b",
    " a  b\tc\n",
    "a,b,,c,",
    ",",
    "a\nb\r\nc",
    "a\r\n",
    "\r",
    "\n\n",
    "x=1=2",
    "=",
    "é\u{a0}ß",
    "\u{2003}mitte\u{3000}",
    "\u{85}x\u{1680}",
    "//a//b/",
    "/",
    "/./dev/../x",
    "a/./b/.",
    "..",
    ".",
    "UUID=12-34",
    "tail\r",
];

#[test]
fn splitting_agrees_with_std() {
    for s in TEXTS {
        for sep in [',', '\n', '=', '/', ' '] {
            let expected: Vec<String> = s.split(sep).map(String::from).collect();
            assert_eq!(split_char(s, sep), expected, "{s:?} at {sep:?}");
        }
        let words: Vec<String> = s.split_whitespace().map(String::from).collect();
        assert_eq!(split_words(s), words, "{s:?}");
        let lines: Vec<String> = s.lines().map(String::from).collect();
        assert_eq!(split_lines(s), lines, "{s:?}");
    }
}

#[test]
fn splitting_once_agrees_with_std() {
    for s in TEXTS {
        let mut parts = s.splitn(2, '=');
        let first = parts.next().unwrap_or("").to_string();
        let second = parts.next().map(String::from);
        assert_eq!(split_once(s, '='), (first, second), "{s:?}");
    }
}

#[test]
fn trimming_agrees_with_std() {
    for s in TEXTS {
        assert_eq!(trim(s), s.trim(), "{s:?}");
        assert_eq!(strip_all_leading(s, '/'), s.trim_start_matches('/'), "{s:?}");
        assert_eq!(strip_leading(s, '/'), s.strip_prefix('/').unwrap_or(s), "{s:?}");
        assert_eq!(strip_prefix(s, "UUID="), s.strip_prefix("UUID=").map(String::from));
        assert_eq!(starts_with(s, "/"), s.starts_with('/'), "{s:?}");
        assert_eq!(starts_with_char(s, '/'), s.starts_with('/'), "{s:?}");
        assert_eq!(contains_char(s, '='), s.contains('='), "{s:?}");
        assert!(starts_with(s, ""));
        assert!(!starts_with(s, "no such beginning"));
    }
}

#[test]
fn white_space_agrees_with_std() {
    for n in 0..0x3100u32 {
        if let Some(c) = char::from_u32(n) {
            assert_eq!(white(c), c.is_whitespace(), "{n:#x}");
        }
    }
    assert!(!white('\u{10ffff}'));
}

#[test]
fn joining_gives_back_what_was_split() {
    for s in TEXTS {
        assert_eq!(join_texts(&split_char(s, ','), ","), s);
    }
    assert_eq!(join_texts(&Vec::new(), ","), "");
    assert_eq!(cat3("a", "", "b"), "ab");
    assert!(same_text("ab", &cat3("a", "b", "")));
    assert!(!same_text("ab", "aB"));
    assert!(holds_text(&vec!["ro".to_string(), "rw".to_string()], "rw"));
    assert!(!holds_text(&vec!["ro".to_string()], "r"));
}

#[test]
fn numbers_are_written_like_std_does() {
    for n in [0u64, 1, 9, 10, 11, 99, 100, 4095, 65536, u64::MAX] {
        assert_eq!(decimal_text(n), n.to_string());
    }
    for n in [0i32, 7, -1, -10, i32::MAX, i32::MIN] {
        assert_eq!(signed_text(n), n.to_string());
    }
}

#[test]
fn numbers_are_read_like_std_does() {
    for s in [
        "", "+", "-", "0", "00", "1", "+1", "-1", "12a", " 1", "1 ", "2147483647", "2147483648",
        "-2147483648", "-2147483649", "+2147483648", "99999999999999999999", "-0", "--1", "1-",
        "self", "١",
    ] {
        assert_eq!(parse_decimal(s), s.parse::<i32>().ok(), "{s:?}");
    }
    for s in [
        "", "+", "-1", "0", "deadbeef", "DEADBEEF", "+1234567", "ffffffff", "100000000", "0x10",
        "g", "12345678 ",
    ] {
        assert_eq!(parse_hex(s), u32::from_str_radix(s, 16).ok(), "{s:?}");
    }
}

#[test]
fn joining_paths_agrees_with_std() {
    for a in TEXTS {
        for b in TEXTS {
            let expected = Path::new(a).join(b);
            assert_eq!(join_path(a, b), expected.to_string_lossy(), "{a:?} and {b:?}");
        }
    }
}

#[test]
fn parts_of_paths_agree_with_std() {
    for p in TEXTS {
        let path = Path::new(p);
        let parent = path.parent().map(|q| q.to_string_lossy().into_owned());
        assert_eq!(path_parent(p), parent, "{p:?}");
        let name = path.file_name().map(|q| q.to_string_lossy().into_owned());
        assert_eq!(path_file_name(p), name, "{p:?}");
        assert_eq!(is_root_path(p), path == Path::new("/"), "{p:?}");
        assert_eq!(path_is_below(p, "dev"), path.starts_with("/dev"), "{p:?}");
        if path.is_absolute() {
            let rel = path.strip_prefix("/").unwrap();
            assert_eq!(strip_root(p), rel.to_string_lossy(), "{p:?}");
        }
    }
    for p in ["/dev", "/dev/", "//dev/pts", "/./dev/x", "/device", "dev", "/a/dev", "/dev/.."] {
        assert_eq!(path_is_below(p, "dev"), Path::new(p).starts_with("/dev"), "{p:?}");
    }
    assert_eq!(path_names("/a/./b//c/"), vec!["a", "b", "c"]);
}

#[test]
fn names_are_written_and_read_back() {
    let name = vec![Ok('a'), Err(0xff), Ok('\u{e9}'), Err(0x80), Ok('z')];
    let text = name_text(&name);
    assert_eq!(text, "a\0\u{ff}\u{e9}\0\u{80}z");
    assert_eq!(name_parts(&text), name);
    assert_eq!(name_parts("n\u{e9}"), vec![Ok('n'), Ok('\u{e9}')]);
    assert_eq!(name_parts("\0a\0"), vec![Ok('\0'), Ok('a'), Ok('\0')]);
    assert_eq!(name_text(&Vec::new()), "");
    assert_eq!(name_parts(""), vec![]);
}

#[test]
fn paths_are_quoted_as_the_standard_library_does() {
    for text in ["", "/", "/a b", "a\"b'c\\d", "n\u{e9}\u{301}\t\n", "\u{200b}x"] {
        assert_eq!(quote_path(text), format!("{:?}", Path::new(text)));
    }
    let broken: [&[u8]; 5] =
        [b"/d/a\xff", b"\xc3\x28", b"x\"\x80\xccy'\xf0\x9f", b"\xff\xfe", b"\xe2\x82e\xcc\x81\x80"];
    for name in broken {
        let mut parts: Vec<Result<char, u8>> = Vec::new();
        for chunk in name.utf8_chunks() {
            parts.extend(chunk.valid().chars().map(Ok));
            parts.extend(chunk.invalid().iter().map(|byte| Err(*byte)));
        }
        let quoted = quote_path(&name_text(&parts));
        let debug = format!("{:?}", name.utf8_chunks());
        assert_eq!(debug, format!("Utf8Chunks {{ source: {quoted} }}"));
    }
    assert_eq!(quote_path("/d/a\0\u{ff}"), "\"/d/a\\xFF\"");
}
