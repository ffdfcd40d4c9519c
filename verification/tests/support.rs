use beads_commands::numbers::{
    base64_text, decimal_text, hex_text, padded_decimal_text, signed_decimal_text,
    wide_decimal_text,
};
use beads_commands::paths::{
    components_of, file_name_of, is_directly_in, is_same_path, is_under, joined_path, last_part_of,
    parent_of, path_goes_up, path_with_extension, path_with_file_name, relative_path, split_extension,
};
use beads_commands::sanitize::{inline_list, sanitize_terminal_inline, sanitize_terminal_text};
use beads_commands::shell::quote_for_shell;
use beads_commands::sorting::sorted;
use beads_commands::text::{
    ascii_lowercased, contains_text, distinct_texts, has_prefix, has_suffix, joined, lines_of,
    split_at_first, split_on, trimmed, trimmed_end, trimmed_start, without_prefix,
};
use std::path::Path;

const SAMPLES: [&str; 9] = ["", "a", " a b ", "\t\u{a0}x\u{3000}", "a\nb", "a\r\nb\n", "é,é", "::", "\u{85}z"];

#[test]
fn text_functions_are_those_of_std() {
    for s in SAMPLES {
        assert_eq!(trimmed(s), s.trim());
        assert_eq!(trimmed_start(s), s.trim_start());
        assert_eq!(trimmed_end(s), s.trim_end());
        assert_eq!(ascii_lowercased(s), s.to_ascii_lowercase());
        assert_eq!(lines_of(s), s.lines().map(str::to_string).collect::<Vec<_>>());
        assert_eq!(split_on(s, ','), s.split(',').map(str::to_string).collect::<Vec<_>>());
        assert_eq!(
            split_at_first(s, ':'),
            s.split_once(':').map(|(a, b)| (a.to_string(), b.to_string()))
        );
        for t in SAMPLES {
            assert_eq!(contains_text(s, t), s.contains(t));
            assert_eq!(has_prefix(s, t), s.starts_with(t));
            assert_eq!(has_suffix(s, t), s.ends_with(t));
            assert_eq!(without_prefix(s, t), s.strip_prefix(t).map(str::to_string));
        }
    }
    let parts = vec!["b".to_string(), "a".to_string(), "b".to_string()];
    assert_eq!(joined(&parts, ", "), "b, a, b");
    assert_eq!(distinct_texts(&parts), vec!["b".to_string(), "a".to_string()]);
    assert_eq!(sorted(parts), vec!["a".to_string(), "b".to_string(), "b".to_string()]);
}

#[test]
fn control_characters_are_shown_as_escapes() {
    let all: String = (0u32..0x300).filter_map(char::from_u32).collect();
    assert!(!sanitize_terminal_inline(&all).chars().any(char::is_control));
    assert!(!sanitize_terminal_text(&all).chars().any(|c| c.is_control() && c != '\n' && c != '\t'));
    assert_eq!(sanitize_terminal_inline("a\tb\u{9f}é"), "a\\tb\\u{9f}é");
    assert_eq!(sanitize_terminal_text("a\tb\nc\r"), "a\tb\nc\\r");
    let once = sanitize_terminal_inline("\x1b[2J");
    assert_eq!(sanitize_terminal_inline(&once), once);
    assert_eq!(inline_list(&vec!["a\n".to_string(), "b".to_string()]), "a\\n, b");
}

#[test]
fn numbers_are_those_of_std() {
    for n in [0u64, 9, 10, 12345, u64::MAX] {
        assert_eq!(decimal_text(n), n.to_string());
        assert_eq!(wide_decimal_text(n as u128 * 7), (n as u128 * 7).to_string());
        assert_eq!(padded_decimal_text(n as u128, 6), format!("{n:06}"));
    }
    for n in [0i64, -1, i64::MIN, i64::MAX] {
        assert_eq!(signed_decimal_text(n), n.to_string());
    }
    assert_eq!(hex_text(&[0, 255, 16]), "00ff10");
}

#[test]
fn paths_are_those_of_std() {
    let paths = [
        "/", "a", "/a", "/a/b.txt", "a/b/", "./a", "a/./b", "/a//b", "..", "../a", ".hidden", "a/.hidden",
        "x.tar.gz", "/w/issues.jsonl", "a/..", ".",
    ];
    for p in paths {
        let path = Path::new(p);
        assert_eq!(file_name_of(p), path.file_name().map(|n| n.to_str().unwrap().to_string()), "{p}");
        assert_eq!(
            parent_of(p).map(|q| Path::new(&q).to_path_buf()),
            path.parent().map(Path::to_path_buf),
            "{p}"
        );
        assert_eq!(
            components_of(p).len(),
            path.components().count(),
            "{p}"
        );
        assert_eq!(path_with_extension(p, "x.tmp"), path.with_extension("x.tmp").to_str().unwrap(), "{p}");
        assert_eq!(
            Path::new(&path_with_file_name(p, "n")),
            path.with_file_name("n"),
            "{p}"
        );
        if let Some(name) = path.file_name().and_then(|n| n.to_str()) {
            assert_eq!(
                split_extension(name).1,
                path.extension().map(|e| e.to_str().unwrap().to_string()),
                "{p}"
            );
        }
        for q in paths {
            assert_eq!(is_under(p, q), path.starts_with(q), "{p} {q}");
            assert_eq!(is_same_path(p, q), path == Path::new(q), "{p} {q}");
            assert_eq!(Path::new(&joined_path(p, q)), path.join(q), "{p} {q}");
        }
    }
    assert!(is_directly_in("/a/b", "/a"));
    assert!(!is_directly_in("/a/b/c", "/a"));
    assert_eq!(relative_path("/repo/.beads/x", "/repo"), ".beads/x");
}

#[test]
fn shells_read_quoted_words_back() {
    assert_eq!(quote_for_shell("plain"), "'plain'");
    assert_eq!(quote_for_shell("it's $HOME"), "'it'\"'\"'s $HOME'");
}

#[test]
fn bytes_are_written_in_base64() {
    assert_eq!(base64_text(&[]), "");
    assert_eq!(base64_text(b"f"), "Zg==");
    assert_eq!(base64_text(b"fo"), "Zm8=");
    assert_eq!(base64_text(b"foo"), "Zm9v");
    assert_eq!(base64_text(b"foobar"), "Zm9vYmFy");
    assert_eq!(base64_text(&[0x00, 0xff]), "AP8=");
    assert_eq!(base64_text(&[0xfb, 0xef, 0xff]), "++//");
}

#[test]
fn paths_may_go_up() {
    assert_eq!(last_part_of("/a/b").as_deref(), Some("b"));
    assert_eq!(last_part_of("/a/..").as_deref(), Some(".."));
    assert_eq!(last_part_of("/"), None);
    assert!(path_goes_up("/a/../b"));
    assert!(path_goes_up(".."));
    assert!(!path_goes_up("/a/..b/c.."));
}
