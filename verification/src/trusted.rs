//! The engine's view of its outside collaborators: string/character-vector
//! conversions from std, the percent-encoder for outgoing command payloads,
//! and the random-letter source for nonces. Each item's contract states what
//! the engine relies on; the bodies only make the call and convert values.

use vstd::prelude::*;

verus! {

/// Relies on str::chars from std: iterating a string yields exactly its
/// characters in order.
#[verifier::external_body]
pub fn str_to_chars(s: &str) -> (r: Vec<char>)
    ensures
        r@ == s@,
{
    s.chars().collect()
}

/// Relies on String: FromIterator<char> from std: collecting characters
/// yields the string holding exactly those characters in order.
#[verifier::external_body]
pub fn chars_to_string(v: &Vec<char>) -> (r: String)
    ensures
        r@ == v@,
{
    v.iter().collect()
}

/// What the percent-encoder returns for a given text; the encoding of a
/// string is a function of its characters alone.
pub uninterp spec fn percent_encoded(s: Seq<char>) -> Seq<char>;

/// Relies on percent_encoding::utf8_percent_encode over the
/// NON_ALPHANUMERIC set: the result is a pure function of the input text.
#[verifier::external_body]
pub fn percent_encode_chars(v: &Vec<char>) -> (r: Vec<char>)
    ensures
        r@ == percent_encoded(v@),
{
    let s: String = v.iter().collect();
    percent_encoding::utf8_percent_encode(&s, percent_encoding::NON_ALPHANUMERIC)
        .to_string()
        .chars()
        .collect()
}

/// Relies on rand::random_range over `97..122`: the result always lies in
/// that half-open range, so the character is a lowercase letter.
#[verifier::external_body]
pub fn random_lowercase_letter() -> (c: char)
    ensures
        'a' <= c && c <= 'y',
{
    rand::random_range(97u8..122) as char
}

} // verus!
