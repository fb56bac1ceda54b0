use beaglewing::decimal::{push_decimal, to_decimal};
use beaglewing::hdrop::build_hdrop;
use beaglewing::selection::text_lines;
use beaglewing::text::{
    chars_of, ends_with, lines, push_str, same_text, string_of, text_of, to_crlf, to_lf, trim,
};
use beaglewing::uri::{
    copied_file_list, parse_file_list, path_to_uri, paths_of_text, uri_to_path,
};

fn trimmed(s: &str) -> String {
    string_of(&trim(&chars_of(s)))
}

#[test]
fn bytes_become_text() {
    assert_eq!(text_of("h\u{e9}llo \u{1f600}".as_bytes()), "h\u{e9}llo \u{1f600}");
    assert_eq!(text_of(&[b'a', 0xff, b'b']), "a\u{fffd}b");
    assert_eq!(text_of(&[]), "");
}

#[test]
fn trimming_is_like_std() {
    for s in ["", "  ", " a b\t\n", "\u{a0}x\u{3000}", "x", "\r\n\u{2028}y\u{85}", "\u{200b}z"] {
        assert_eq!(trimmed(s), s.trim(), "{s:?}");
    }
}

#[test]
fn white_space_is_like_std() {
    for c in '\0'..=char::MAX {
        let s = c.to_string();
        assert_eq!(trimmed(&s).is_empty(), c.is_whitespace(), "{c:?}");
    }
}

#[test]
fn lines_are_like_std() {
    for s in ["", "\n", "a", "a\n", "a\r\nb", "a\r", "\r\n\r\n", "a\n\nb\r\n", "\ra\n", "a\r\r\nb"] {
        let want: Vec<String> = s.lines().map(String::from).collect();
        assert_eq!(text_lines(s), want, "{s:?}");
        assert_eq!(lines(&chars_of(s)).len(), want.len());
    }
}

#[test]
fn line_endings() {
    assert_eq!(to_lf("a\r\nb\rc\nd\r\r\n"), "a\nb\rc\nd\r\n");
    assert_eq!(to_crlf("a\nb"), "a\r\nb");
    assert_eq!(to_crlf(&to_lf("a\r\nb\n")), "a\r\nb\r\n");
    for s in ["", "\n", "a\r\n", "x\ny\r", "\r\r\n\n"] {
        assert_eq!(to_lf(&to_crlf(s)), s);
        assert_eq!(to_lf(s), s.replace("\r\n", "\n"));
        assert_eq!(to_crlf(s), s.replace('\n', "\r\n"));
    }
}

#[test]
fn comparing_and_appending() {
    assert!(same_text("abc", "abc"));
    assert!(!same_text("abc", "abd"));
    assert!(!same_text("abc", "ab"));
    assert!(ends_with("x.UnknownMethod", "UnknownMethod"));
    assert!(!ends_with("UnknownMethodX", "UnknownMethod"));
    assert!(!ends_with("Method", "UnknownMethod"));
    let mut s = String::from("a");
    push_str(&mut s, "\u{e9}b");
    assert_eq!(s, "a\u{e9}b");
}

#[test]
fn decimal_numbers() {
    for n in [0u128, 9, 10, 101, 65535, u64::MAX as u128, u128::MAX] {
        assert_eq!(to_decimal(n), n.to_string());
    }
    let mut s = String::from("n=");
    push_decimal(&mut s, 42);
    assert_eq!(s, "n=42");
}

#[test]
fn uris_to_paths() {
    assert_eq!(uri_to_path("file:///tmp/a%20b").as_deref(), Some("/tmp/a b"));
    assert_eq!(uri_to_path("  file:///x\r\n").as_deref(), Some("/x"));
    assert_eq!(uri_to_path("file:///%e2%82%AC").as_deref(), Some("/\u{20ac}"));
    assert_eq!(uri_to_path("file:///a%").as_deref(), Some("/a%"));
    assert_eq!(uri_to_path("file:///a%4").as_deref(), Some("/a%4"));
    assert_eq!(uri_to_path("file:///a%+5z").as_deref(), Some("/a\u{5}z"));
    assert_eq!(uri_to_path("file:///a%zz"), None);
    assert_eq!(uri_to_path("file:///a%5+"), None);
    assert_eq!(uri_to_path("file:///a%++"), None);
    assert_eq!(uri_to_path("file:///a%\u{e9}"), None);
    assert_eq!(uri_to_path("file:///%ff").as_deref(), Some("/\u{fffd}"));
    assert_eq!(uri_to_path("file:/x"), None);
    assert_eq!(uri_to_path("http://x"), None);
    assert_eq!(uri_to_path("file://").as_deref(), Some(""));
}

#[test]
fn paths_to_uris() {
    assert_eq!(path_to_uri("/tmp/a b.txt"), "file:///tmp/a%20b.txt");
    assert_eq!(path_to_uri("/-_.~09azAZ"), "file:///-_.~09azAZ");
    assert_eq!(path_to_uri("/\u{20ac}%#"), "file:///%E2%82%AC%25%23");
}

#[test]
fn uri_round_trips() {
    for p in ["", "/", "/a b", "/100%", "/%41", "/\u{1f600}\n\r\t", " /x ", "#copy"] {
        assert_eq!(uri_to_path(&path_to_uri(p)).as_deref(), Some(p));
    }
}

#[test]
fn file_lists() {
    let list = b"copy\nfile:///a\r\n# comment\n\nfile:///b%20c\nnot a uri\ncut\n";
    assert_eq!(parse_file_list(list), vec!["/a", "/b c"]);
    assert!(parse_file_list(b"").is_empty());
    assert_eq!(paths_of_text("file:///x"), vec!["/x"]);
}

#[test]
fn copied_file_lists_read_back() {
    let paths: Vec<String> =
        ["/a b", "/c\nd", "/\u{20ac}"].iter().map(|s| s.to_string()).collect();
    let list = copied_file_list(&paths);
    assert_eq!(list, "copy\nfile:///a%20b\nfile:///c%0Ad\nfile:///%E2%82%AC");
    assert_eq!(parse_file_list(list.as_bytes()), paths);
    assert_eq!(copied_file_list(&[]), "copy");
}

#[test]
fn file_drops() {
    let d = build_hdrop(&["C:\\a".to_string(), "\u{1f600}".to_string()]);
    let mut want = vec![0u8; 20];
    want[0] = 20;
    want[16] = 1;
    for s in ["C:\\a", "\u{1f600}"] {
        for u in s.encode_utf16() {
            want.extend_from_slice(&u.to_le_bytes());
        }
        want.extend_from_slice(&[0, 0]);
    }
    want.extend_from_slice(&[0, 0]);
    assert_eq!(d, want);
    assert_eq!(build_hdrop(&[]).len(), 22);
}
