use pike::grapheme::{cluster_is_blank, cluster_offset, concat_from, concat_range, line_blanks};
use pike::text::{chars_of, join, join_by, split, split_lines, str_eq};

#[test]
fn texts_are_cut_at_every_separator() {
    assert_eq!(split("a+b", '+'), vec!["a", "b"]);
    assert_eq!(split("", '+'), vec![""]);
    assert_eq!(split("+", '+'), vec!["", ""]);
    assert_eq!(split("ctrl++x+", '+'), vec!["ctrl", "", "x", ""]);
    assert_eq!(split("ęb", 'b'), vec!["ę", ""]);
}

#[test]
fn lines_end_at_line_feeds() {
    assert_eq!(split_lines("123\n456\n789"), vec!["123", "456", "789"]);
    assert_eq!(split_lines("123\n456\n"), vec!["123", "456"]);
    assert_eq!(split_lines("a\r\nb\r"), vec!["a", "b\r"]);
    assert_eq!(split_lines("\n\n"), vec!["", ""]);
    assert_eq!(split_lines(""), Vec::<String>::new());
    assert_eq!(split_lines("\r\n"), vec![""]);
    for text in ["", "a", "a\n", "\na", "a\r\n\r\nb", "x\ry\n", "\r"] {
        let expected: Vec<String> = text.lines().map(String::from).collect();
        assert_eq!(split_lines(text), expected);
    }
}

#[test]
fn lines_are_joined_by_line_feeds() {
    assert_eq!(join(&vec![]), "");
    assert_eq!(join(&vec!["a".to_string()]), "a");
    assert_eq!(
        join(&vec!["a".to_string(), "".to_string(), "b".to_string()]),
        "a\n\nb"
    );
}

#[test]
fn parts_are_joined_by_a_separator() {
    assert_eq!(join_by(&vec![], '+'), "");
    assert_eq!(join_by(&vec!["ctrl".to_string()], '+'), "ctrl");
    assert_eq!(
        join_by(&vec!["ctrl".to_string(), "".to_string(), "x".to_string()], '+'),
        "ctrl++x"
    );
    assert_eq!(split(&join_by(&vec!["a".to_string(), "b".to_string()], '+'), '+'), vec!["a", "b"]);
}

#[test]
fn characters_are_compared_and_listed() {
    assert!(str_eq("save", "save"));
    assert!(!str_eq("save", "Save"));
    assert!(!str_eq("save", "sav"));
    assert_eq!(chars_of("aę"), vec!['a', 'ę']);
}

#[test]
fn clusters_are_blank_when_all_is_whitespace() {
    assert!(cluster_is_blank(" "));
    assert!(cluster_is_blank("\r\n"));
    assert!(cluster_is_blank(""));
    assert!(!cluster_is_blank("a"));
    assert!(!cluster_is_blank(" a"));
    assert_eq!(
        line_blanks("a e\u{301}\t"),
        vec![false, true, false, true]
    );
}

#[test]
fn clusters_are_put_together() {
    let parts = vec!["a".to_string(), "bc".to_string(), "d".to_string()];
    assert_eq!(concat_from(&parts, 0), "abcd");
    assert_eq!(concat_from(&parts, 2), "d");
    assert_eq!(concat_from(&parts, 3), "");
    assert_eq!(concat_from(&parts, 4), "");
    assert_eq!(concat_range(&parts, 1, 3), "bcd");
    assert_eq!(concat_range(&parts, 1, 1), "");
}

#[test]
fn byte_offsets_are_counted_in_clusters() {
    // "ę", "x", "e" with an accent, "y": 2, 1, 3 and 1 bytes
    let clusters = vec![
        "ę".to_string(),
        "x".to_string(),
        "e\u{301}".to_string(),
        "y".to_string(),
    ];
    assert_eq!(cluster_offset(&clusters, 0), 0);
    assert_eq!(cluster_offset(&clusters, 1), 0);
    assert_eq!(cluster_offset(&clusters, 2), 1);
    assert_eq!(cluster_offset(&clusters, 3), 2);
    assert_eq!(cluster_offset(&clusters, 4), 2);
    assert_eq!(cluster_offset(&clusters, 6), 3);
    assert_eq!(cluster_offset(&clusters, 7), 4);
    assert_eq!(cluster_offset(&clusters, 70), 4);
    assert_eq!(cluster_offset(&Vec::new(), 3), 0);
}
