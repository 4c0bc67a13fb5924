use lattice::files::{actor_from_header, escape_filename, sanitize_filename};
use lattice::order::{position_before, str_less};
use lattice::sorted::insert_sorted;
use lattice::text::{chars_of, parse_positive, string_of, trimmed, u64_to_decimal};

#[test]
fn upload_names_lose_their_path_and_control_characters() {
    assert_eq!(sanitize_filename("demo.txt"), "demo.txt");
    assert_eq!(sanitize_filename("/etc/passwd"), "passwd");
    assert_eq!(sanitize_filename(r"C:\Users\me\report.pdf"), "report.pdf");
    assert_eq!(sanitize_filename(r"a/b\c/d.txt"), "d.txt");
    assert_eq!(sanitize_filename("  spaced name.txt \n"), "spaced name.txt");
    assert_eq!(sanitize_filename("a\u{7}b\u{9}c\u{9f}d"), "a_b_c_d");
    assert_eq!(sanitize_filename(""), "upload.bin");
    assert_eq!(sanitize_filename("dir/"), "upload.bin");
    assert_eq!(sanitize_filename("dir/  \t "), "upload.bin");
    assert_eq!(sanitize_filename("\u{1}"), "_");
}

#[test]
fn file_names_are_escaped_for_a_quoted_header() {
    assert_eq!(escape_filename("plain.txt"), "plain.txt");
    assert_eq!(escape_filename("a\"b"), "a\\\"b");
    assert_eq!(escape_filename("a\\b"), "a\\\\b");
    assert_eq!(escape_filename("\\\""), "\\\\\\\"");
    assert_eq!(escape_filename(""), "");
}

#[test]
fn actor_comes_from_the_client_header() {
    assert_eq!(actor_from_header(Some(" codex "), "human"), "codex");
    assert_eq!(actor_from_header(Some("   "), "human"), "human");
    assert_eq!(actor_from_header(None, "agent"), "agent");
}

#[test]
fn strings_are_ordered_character_by_character() {
    assert!(str_less("", "a"));
    assert!(!str_less("", ""));
    assert!(!str_less("a", ""));
    assert!(str_less("a", "b"));
    assert!(str_less("a", "ab"));
    assert!(!str_less("ab", "a"));
    assert!(str_less("B", "a"));
    assert!(str_less("2024-01-01T00:00:00Z", "2024-01-01T00:00:01Z"));
    assert!(str_less("z", "\u{e9}"));
    assert!(!str_less("same", "same"));
    assert!(position_before("t1", "b", "t2", "a"));
    assert!(position_before("t1", "a", "t1", "b"));
    assert!(!position_before("t1", "b", "t1", "b"));
    assert!(!position_before("t2", "a", "t1", "b"));
}

#[test]
fn sorted_insert_keeps_order_and_drops_repeats() {
    let mut list: Vec<String> = Vec::new();
    for item in ["m", "a", "z", "m", "b", "a", "zz", ""] {
        insert_sorted(&mut list, item.to_string());
    }
    assert_eq!(list, vec!["", "a", "b", "m", "z", "zz"]);
}

#[test]
fn text_helpers_agree_with_std() {
    let samples = [
        "",
        " ",
        " \t a b \u{a0}\u{3000}",
        "\u{2028}x\u{85}",
        "no-space",
        "\u{feff}bom",
        "\u{200b}zero-width",
    ];
    for sample in samples {
        let chars = chars_of(sample);
        assert_eq!(string_of(&chars), sample);
        assert_eq!(string_of(&trimmed(&chars)), sample.trim());
    }
    for n in [0u64, 7, 10, 99, 100, 12345, u64::MAX] {
        assert_eq!(u64_to_decimal(n), n.to_string());
    }
    for text in ["1", "+1", "007", "+0", "0", "-1", "", "+", "9223372036854775807", "9223372036854775808", "1a", " 1"] {
        let expected = text.parse::<i64>().ok().filter(|n| *n > 0);
        assert_eq!(parse_positive(&chars_of(text)), expected, "{text:?}");
    }
}
