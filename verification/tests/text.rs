//! Texts, positions, checksums and paths.
use minad::connection::{admits, line_too_long, MAX_CMD_LINE};
use minad::open::normalize_open_path;
use minad::paths::{
    components, config_dir, extension, from_components, lexical_normalize, path_from_uri, starts_with,
};
use minad::strings::{decimal, has_upper_case, is_blank, trim};
use minad::text::{
    byte_point, col_of_char, fnv1a64, input_edit_from_diff, is_peer_allowed, line_of_char,
    mismatch_snippet, splice, split_lines, visible_window_range, Point,
};

/// The character at which `needle` starts.
fn char_idx_of(text: &str, needle: &str) -> usize {
    text[..text.find(needle).unwrap()].chars().count()
}

#[test]
fn line_and_col_of_char_are_1_origin() {
    let text = "fn a() {}\nfn b() { TODO }";
    let start = char_idx_of(text, "TODO");
    assert_eq!(line_of_char(text, start), 1);
    assert_eq!(col_of_char(text, start), 10);
    assert_eq!(line_of_char(text, start) + 1, 2);

    assert_eq!(col_of_char(text, 0), 1);
    assert_eq!(col_of_char(text, text.len() + 5), 16);
    let with_nl = "ab\ncd";
    assert_eq!(col_of_char(with_nl, 3), 1);
    assert_eq!(col_of_char(with_nl, 4), 2);
}

#[test]
fn col_of_char_counts_chars_not_bytes() {
    let text = "あいうTODO";
    let start = char_idx_of(text, "TODO");
    assert_eq!(start, 3);
    assert_eq!(col_of_char(text, start), 4);
}

#[test]
fn lexical_normalize_makes_absolute_and_resolves_dots() {
    let cwd = "/home/work";
    assert_eq!(lexical_normalize("./a/../b.txt", Some(cwd)), "/home/work/b.txt");
    assert_eq!(lexical_normalize("/x/./y/../z.txt", Some(cwd)), "/x/z.txt");
    assert_eq!(lexical_normalize("/../x", Some(cwd)), "/x");
}

#[test]
fn normal_form_is_its_own_normal_form() {
    let once = lexical_normalize("a//b/./../c/", Some("/w"));
    assert_eq!(once, "/w/a/c");
    assert_eq!(lexical_normalize(&once, Some("/elsewhere")), once);
}

#[test]
fn path_on_disk_wins_over_the_lexical_form() {
    assert_eq!(
        normalize_open_path("link.txt", Some("/real/a.txt".to_string()), Some("/w")),
        "/real/a.txt"
    );
    assert_eq!(normalize_open_path("./new.txt", None, Some("/w")), "/w/new.txt");
}

#[test]
fn peer_uid_mismatch_is_rejected() {
    let uid: u32 = 1000;
    assert!(is_peer_allowed(uid, uid));
    assert!(!is_peer_allowed(uid.wrapping_add(1), uid));
    assert!(!is_peer_allowed(0, uid));
}

#[test]
fn a_peer_without_credentials_is_not_admitted() {
    assert!(admits(Some(7), 7));
    assert!(!admits(Some(8), 7));
    assert!(!admits(None, 7));
}

#[test]
fn long_lines_are_told_apart() {
    assert!(!line_too_long(MAX_CMD_LINE));
    assert!(line_too_long(MAX_CMD_LINE + 1));
}

#[test]
fn checksums_have_their_known_values() {
    assert_eq!(fnv1a64(b""), 0xcbf29ce484222325);
    assert_eq!(fnv1a64(b"a"), 0xaf63dc4c8601ec8c);
    assert_eq!(fnv1a64(b"foobar"), 0x85944171f73967e8);
}

#[test]
fn window_covers_whole_lines() {
    let text = "あ\nbb\nccc\n";
    assert_eq!(visible_window_range(text, 0, 1), 0..4);
    assert_eq!(visible_window_range(text, 1, 2), 4..11);
    assert_eq!(visible_window_range(text, 1, 0), 4..4);
    assert_eq!(visible_window_range("a\nb\n", 0, 0), 0..0);
    assert_eq!(visible_window_range(text, 9, 3), 11..11);
    assert_eq!(visible_window_range(text, 0, usize::MAX), 0..11);
}

#[test]
fn diff_names_the_changed_stretch() {
    let e = input_edit_from_diff("fn a() {}\n", "fn abc() {}\n");
    assert_eq!((e.start_byte, e.old_end_byte, e.new_end_byte), (4, 4, 6));
    assert_eq!(e.start_position, Point { row: 0, column: 4 });
    let e = input_edit_from_diff("x\ny", "x\ny");
    assert_eq!(e.start_byte, e.old_end_byte);
    assert_eq!(e.start_byte, e.new_end_byte);
    let e = input_edit_from_diff("a\nb\nc", "a\nc");
    assert_eq!(e.old_end_byte - e.start_byte, 2);
    assert_eq!(e.new_end_byte, e.start_byte);
}

#[test]
fn diff_is_cut_between_characters() {
    let e = input_edit_from_diff("あ", "い");
    assert_eq!((e.start_byte, e.old_end_byte, e.new_end_byte), (0, 3, 3));
    assert_eq!(e.start_position, Point { row: 0, column: 0 });
    assert_eq!(e.old_end_position, Point { row: 0, column: 3 });
    assert_eq!(e.new_end_position, Point { row: 0, column: 3 });
    // U+3042 and U+3082 share their first and their last byte.
    let e = input_edit_from_diff("x\nあy", "x\nもy");
    assert_eq!((e.start_byte, e.old_end_byte, e.new_end_byte), (2, 5, 5));
    assert_eq!(e.start_position, Point { row: 1, column: 0 });
    assert_eq!(e.new_end_position, Point { row: 1, column: 3 });
}

#[test]
fn diff_of_a_text_with_itself_is_empty() {
    let e = input_edit_from_diff("aあ\n", "aあ\n");
    assert_eq!((e.start_byte, e.old_end_byte, e.new_end_byte), (5, 5, 5));
}

#[test]
fn diff_leads_from_the_old_text_to_the_new_one() {
    for (old, new) in [("", "あ"), ("あいう", "あう"), ("aXb", "aYYb"), ("ああ", "あ"), ("é", "è")] {
        let e = input_edit_from_diff(old, new);
        let made = format!(
            "{}{}{}",
            &old[..e.start_byte],
            &new[e.start_byte..e.new_end_byte],
            &old[e.old_end_byte..]
        );
        assert_eq!(made, new);
    }
}

#[test]
fn byte_point_counts_rows_and_bytes() {
    assert_eq!(byte_point("あb\ncd", 0), Point { row: 0, column: 0 });
    assert_eq!(byte_point("あb\ncd", 3), Point { row: 0, column: 3 });
    assert_eq!(byte_point("あb\ncd", 6), Point { row: 1, column: 1 });
}

#[test]
fn snippets_are_cut_by_characters() {
    assert_eq!(mismatch_snippet("short"), "short");
    let long = "あ".repeat(200);
    let s = mismatch_snippet(&long);
    assert!(s.ends_with('…'));
    assert!(s.chars().count() < 200);
}

#[test]
fn lines_are_split_without_their_ends() {
    assert_eq!(split_lines("a\nb\r\nc"), vec!["a", "b", "c"]);
    assert_eq!(split_lines("a\n"), vec!["a"]);
    assert_eq!(split_lines("").len(), 0);
}

#[test]
fn splice_replaces_characters() {
    assert_eq!(splice("あいう", 1, 2, "x"), "あxう");
    assert_eq!(splice("ab", 2, 2, "c"), "abc");
}

#[test]
fn upper_case_is_found_anywhere_in_a_string() {
    assert!(!has_upper_case(""));
    assert!(!has_upper_case("foo_1 été ß 漢字"));
    assert!(has_upper_case("fooB"));
    assert!(has_upper_case("É"));
    assert!(has_upper_case("straSSe"));
    for c in (0..0x3000u32).filter_map(char::from_u32) {
        assert_eq!(has_upper_case(&c.to_string()), c.is_uppercase());
    }
}

#[test]
fn white_space_is_taken_off_both_ends() {
    assert_eq!(trim(" \t word \u{3000}"), "word");
    assert_eq!(trim("  "), "");
    assert!(is_blank("\u{3000}\n"));
    assert!(!is_blank(" x"));
}

#[test]
fn white_space_is_what_unicode_lists() {
    let listed = |n: u32| {
        matches!(
            n,
            0x9..=0xd
                | 0x20
                | 0x85
                | 0xa0
                | 0x1680
                | 0x2000..=0x200a
                | 0x2028
                | 0x2029
                | 0x202f
                | 0x205f
                | 0x3000
        )
    };
    for n in 0..=0x10ffff {
        if let Some(c) = char::from_u32(n) {
            assert_eq!(is_blank(&c.to_string()), listed(n), "U+{n:04X}");
        }
    }
}

#[test]
fn a_relative_path_is_read_from_the_directory() {
    for path in ["a", "./a/../b", "../x", ".", "../../..", "a//b/", "./"] {
        for dir in ["/", "/w", "/w/v/", "/w/../z"] {
            let joined = std::path::Path::new(dir).join(path);
            assert_eq!(
                lexical_normalize(path, Some(dir)),
                lexical_normalize(joined.to_str().unwrap(), None),
                "{path} from {dir}"
            );
        }
    }
    assert_eq!(lexical_normalize("./a/../b", Some("/w")), "/w/b");
}

#[test]
fn numbers_are_written_in_decimal() {
    assert_eq!(decimal(0), "0");
    assert_eq!(decimal(18446744073709551615), "18446744073709551615");
}

#[test]
fn paths_are_compared_by_components() {
    assert!(starts_with("/r/a.rs", "/r"));
    assert!(starts_with("/r//a.rs", "/r/"));
    assert!(!starts_with("/r2/a.rs", "/r"));
    assert!(starts_with("/r", "/r"));
    assert_eq!(from_components(&components("/a/./b//c")), "/a/b/c");
}

#[test]
fn extensions_follow_the_last_dot_of_the_name() {
    assert_eq!(extension("/a/b.tar.gz").as_deref(), Some("gz"));
    assert_eq!(extension("/a.b/c"), None);
    assert_eq!(extension("/a/.bashrc"), None);
    assert_eq!(extension("x.").as_deref(), Some(""));
}

#[test]
fn only_file_addresses_have_paths() {
    assert_eq!(path_from_uri("file:///a/b.rs"), Ok("/a/b.rs".to_string()));
    assert_eq!(
        path_from_uri("http://x"),
        Err("file:// 以外の URI です: http://x".to_string())
    );
}

#[test]
fn configuration_is_looked_for_at_home() {
    assert_eq!(config_dir(Some("/cfg"), Some("/home/u")), "/cfg/minae");
    assert_eq!(config_dir(None, Some("/home/u")), "/home/u/.config/minae");
}
