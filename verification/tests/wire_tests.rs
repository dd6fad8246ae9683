use gdoc_sync::wire::find_at;
use gdoc_sync::wire::find_max_aid;
use gdoc_sync::wire::find_substring_between;
use gdoc_sync::wire::parse_usize;
use gdoc_sync::wire::slice_at_char_boundaries;
use gdoc_sync::wire::string_parser;

fn chars(s: &str) -> Vec<char> {
    s.chars().collect()
}

fn text(v: &Vec<char>) -> String {
    v.iter().collect()
}

#[test]
fn find_at_locates_first_occurrence() {
    let t = chars("abcabc");
    assert_eq!(find_at(&t, &chars("bc"), 0), Some(1));
    assert_eq!(find_at(&t, &chars("bc"), 2), Some(4));
    assert_eq!(find_at(&t, &chars("zz"), 0), None);
}

#[test]
fn find_substring_between_first_markers() {
    let t = chars("x 'docid': 'abc123' rest");
    let r = find_substring_between(&t, 0, &chars("'docid': '"), &chars("'"));
    assert_eq!(text(&r.unwrap()), "abc123");
    let none = find_substring_between(&t, 0, &chars("missing"), &chars("'"));
    assert!(none.is_none());
}

#[test]
fn escape_decoding_newline() {
    assert_eq!(text(&string_parser(&chars("a\\nb"))), "a\nb");
}

#[test]
fn escape_decoding_backslash() {
    assert_eq!(text(&string_parser(&chars("a\\\\b"))), "a\\b");
}

#[test]
fn escape_decoding_quote() {
    assert_eq!(text(&string_parser(&chars("a\\\"b"))), "a\"b");
}

#[test]
fn escape_decoding_other_passes_through() {
    assert_eq!(text(&string_parser(&chars("a\\xb"))), "a\\xb");
    assert_eq!(text(&string_parser(&chars("end\\"))), "end\\");
}

#[test]
fn parse_usize_plain_and_signed() {
    assert_eq!(parse_usize(&chars("007")), Some(7));
    assert_eq!(parse_usize(&chars("+42")), Some(42));
    assert_eq!(parse_usize(&chars("")), None);
    assert_eq!(parse_usize(&chars("12a")), None);
    assert_eq!(parse_usize(&chars("99999999999999999999999999")), None);
}

#[test]
fn aid_tokenizer_reads_depth_two_leading_integer() {
    let t = chars("[[7,[\"noop\"]]]");
    assert_eq!(find_max_aid(&t), Some(7));
}

#[test]
fn aid_tokenizer_ignores_brackets_inside_quotes() {
    let t = chars("[\"[[\",[9,\"x]\"]]");
    assert_eq!(find_max_aid(&t), Some(9));
}

#[test]
fn aid_tokenizer_last_depth_two_array_wins() {
    let t = chars("[[3,\"a\"],[8,\"b\"]]");
    assert_eq!(find_max_aid(&t), Some(8));
}

#[test]
fn aid_tokenizer_no_depth_two_array_yields_zero() {
    let t = chars("[\"flat\"]");
    assert_eq!(find_max_aid(&t), Some(0));
}

#[test]
fn aid_tokenizer_bad_token_fails() {
    let t = chars("[[abc,1]]");
    assert_eq!(find_max_aid(&t), None);
    let t2 = chars("[[7");
    assert_eq!(find_max_aid(&t2), None);
}

#[test]
fn slice_snaps_to_character_starts() {
    // "aé" is 0x61, 0xC3, 0xA9; offset 2 falls inside the two-byte char.
    let bytes: Vec<u8> = "aé".bytes().collect();
    let r = slice_at_char_boundaries(&bytes, 1, 2);
    assert_eq!(r, vec![0xC3, 0xA9]);
    let whole = slice_at_char_boundaries(&bytes, 0, 3);
    assert_eq!(whole, bytes);
}
