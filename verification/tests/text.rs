use martian::text::{chars_of, decimal_string, str_ends_with, str_starts_with};
use martian::{
    file_type_of, format_error, is_whitespace, join_path, make_file_path, rank, set_extension,
    Csv, Rank,
};

#[test]
fn decimal_strings_are_those_of_the_standard_library() {
    for n in [0i64, 1, 9, 10, 11, 99, 100, 12345, -1, -10, -32768, i64::MAX, i64::MIN] {
        assert_eq!(decimal_string(n), n.to_string());
    }
}

#[test]
fn white_space_is_that_of_the_standard_library() {
    for code in 0..=0x10ffffu32 {
        if let Some(c) = char::from_u32(code) {
            assert_eq!(is_whitespace(c), c.is_whitespace(), "U+{:04X}", code);
        }
    }
}

#[test]
fn names_are_ranked_character_by_character() {
    assert_eq!(rank("json", "txt"), Rank::Before);
    assert_eq!(rank("txt", "json"), Rank::After);
    assert_eq!(rank("txt", "txt"), Rank::Same);
    assert_eq!(rank("", ""), Rank::Same);
    assert_eq!(rank("", "a"), Rank::Before);
    assert_eq!(rank("ab", "a"), Rank::After);
    assert_eq!(rank("Z", "a"), Rank::Before);
    assert_eq!(rank("\u{e9}", "z"), Rank::After);
    for (a, b) in [("bam", "bam.bai"), ("fastq", "fasta"), ("a\u{10000}", "a\u{ffff}")] {
        let expected = match a.cmp(b) {
            std::cmp::Ordering::Less => Rank::Before,
            std::cmp::Ordering::Equal => Rank::Same,
            std::cmp::Ordering::Greater => Rank::After,
        };
        assert_eq!(rank(a, b), expected);
    }
}

#[test]
fn prefixes_and_suffixes() {
    assert!(str_ends_with("cells.csv", ".csv"));
    assert!(str_ends_with("csv", "csv"));
    assert!(str_ends_with("csv", ""));
    assert!(!str_ends_with("sv", "csv"));
    assert!(!str_ends_with("cells.csv", ".tsv"));
    assert!(str_starts_with("#x", "#"));
    assert!(!str_starts_with("", "#"));
    assert_eq!(chars_of("a\u{e9}b"), vec!['a', '\u{e9}', 'b']);
}

#[test]
fn error_text_is_marked_where_it_is_an_assertion() {
    assert_eq!(format_error("bad reference", true), "ASSERT:bad reference");
    assert_eq!(format_error("bad reference", false), "bad reference");
    assert_eq!(format_error("", true), "ASSERT:");
}

#[test]
fn paths_are_joined_and_extended() {
    assert_eq!(join_path("a", "b"), "a/b");
    assert_eq!(join_path("a/", "b"), "a/b");
    assert_eq!(join_path("", "b"), "b");
    assert_eq!(join_path("a", "/b"), "/b");
    assert_eq!(set_extension("a/b".to_string(), "txt"), "a/b.txt");
    assert_eq!(set_extension("a/b.txt".to_string(), "txt"), "a/b.txt");
    assert_eq!(set_extension("a/btxt".to_string(), "txt"), "a/btxt.txt");
    assert_eq!(set_extension("a/b".to_string(), ""), "a/b");
    assert_eq!(make_file_path("dir", "name", "tar.gz"), "dir/name.tar.gz");
    assert_eq!(file_type_of::<Csv>().to_string(), "csv");
}
