//! Tests of percent-encoding, joining, and number formatting.

use qbittorrent::encode::{
    QueryConcat, bool_to_string, i64_to_string, join_hashes, join_strings, percent_encode,
    u64_to_string,
};

#[test]
fn percent_encode_keeps_alphanumerics() {
    assert_eq!(percent_encode("abcXYZ019"), "abcXYZ019");
}

#[test]
fn percent_encode_escapes_everything_else() {
    assert_eq!(percent_encode("a b/c"), "a%20b%2Fc");
    assert_eq!(percent_encode("_-.~"), "%5F%2D%2E%7E");
    assert_eq!(percent_encode(""), "");
}

#[test]
fn percent_encode_escapes_utf8_bytes() {
    // The two bytes of the UTF-8 form each become one escape.
    assert_eq!(percent_encode("\u{fc}"), "%C3%BC");
}

#[test]
fn u64_to_string_writes_decimal() {
    assert_eq!(u64_to_string(0), "0");
    assert_eq!(u64_to_string(7), "7");
    assert_eq!(u64_to_string(1234), "1234");
    assert_eq!(u64_to_string(u64::MAX), "18446744073709551615");
}

#[test]
fn i64_to_string_writes_sign() {
    assert_eq!(i64_to_string(-7), "-7");
    assert_eq!(i64_to_string(0), "0");
    assert_eq!(i64_to_string(i64::MIN), "-9223372036854775808");
    assert_eq!(i64_to_string(i64::MAX), "9223372036854775807");
}

#[test]
fn bool_tokens_are_literal_words() {
    assert_eq!(bool_to_string(true), "true");
    assert_eq!(bool_to_string(false), "false");
}

#[test]
fn join_has_no_leading_or_trailing_separator() {
    let hashes = vec![
        qbittorrent::data::Hash::from("aa".to_string()),
        qbittorrent::data::Hash::from("bb".to_string()),
        qbittorrent::data::Hash::from("cc".to_string()),
    ];
    let joined = join_hashes(&hashes, '|');
    assert_eq!(joined, "aa|bb|cc");
    // A list of length three holds exactly two separators.
    assert_eq!(joined.chars().filter(|c| *c == '|').count(), 2);

    let single = join_hashes(&vec![qbittorrent::data::Hash::from("dd".to_string())], '|');
    assert_eq!(single, "dd");
    assert_eq!(single.chars().filter(|c| *c == '|').count(), 0);
}

#[test]
fn join_strings_uses_given_separator() {
    let tags = vec!["red".to_string(), "blue".to_string()];
    assert_eq!(join_strings(&tags, ','), "red,blue");
    // The empty list deliberately joins to the empty string.
    assert_eq!(join_strings(&Vec::new(), ','), "");
}

#[test]
fn join_keeps_an_empty_part_as_given() {
    // An empty part still counts: the separator count stays one fewer
    // than the parts, though the join then touches that edge.
    let parts = vec![String::new(), "a".to_string()];
    assert_eq!(join_strings(&parts, ','), ",a");
}

#[test]
fn query_concat_matches_join() {
    let h = qbittorrent::data::Hash::from("aabb".to_string());
    assert_eq!(h.query_concat('|'), "aabb");
    let hs = vec![qbittorrent::data::Hash::from("x1".to_string()), qbittorrent::data::Hash::from("x2".to_string())];
    assert_eq!(hs.query_concat('|'), "x1|x2");
    let ts = vec!["a".to_string(), "b".to_string(), "c".to_string()];
    assert_eq!(ts.query_concat(','), "a,b,c");
    assert_eq!("plain".to_string().query_concat('|'), "plain");
}
