//! Stateless text-scanning utilities for the service's ad hoc wire format:
//! marker-delimited substring extraction, backslash-escape decoding, decimal
//! parsing, and the bracket-depth/quote-aware acknowledgment-id tokenizer.
//!
//! All scanning works over characters (Unicode scalar values), so a logical
//! index can never split a multi-byte storage unit.

use vstd::prelude::*;

verus! {

/// True when `pat` occurs in `text` starting at index `i`.
pub open spec fn matches_at(text: Seq<char>, pat: Seq<char>, i: int) -> bool {
    &&& 0 <= i
    &&& i + pat.len() <= text.len()
    &&& forall|k: int| 0 <= k < pat.len() ==> text[i + k] == pat[k]
}

/// Index of the first occurrence of `pat` in `text` at or after `from`.
pub open spec fn find_from(text: Seq<char>, pat: Seq<char>, from: int) -> Option<int>
    decreases text.len() - from,
{
    if from < 0 || from + pat.len() > text.len() {
        None
    } else if matches_at(text, pat, from) {
        Some(from)
    } else {
        find_from(text, pat, from + 1)
    }
}

/// A found occurrence really is an occurrence, at or after the start offset.
pub proof fn lemma_find_from_some(text: Seq<char>, pat: Seq<char>, from: int, i: int)
    requires
        find_from(text, pat, from) == Some(i),
    ensures
        from <= i,
        matches_at(text, pat, i),
    decreases text.len() - from,
{
    if from < 0 || from + pat.len() > text.len() {
    } else if matches_at(text, pat, from) {
    } else {
        lemma_find_from_some(text, pat, from + 1, i);
    }
}

/// Compares `pat` against `text` at offset `i`.
fn eq_at(text: &Vec<char>, pat: &Vec<char>, i: usize) -> (r: bool)
    requires
        i + pat@.len() <= text@.len(),
    ensures
        r == matches_at(text@, pat@, i as int),
{
    let n = text.len();
    let mut k: usize = 0;
    while k < pat.len()
        invariant
            n == text@.len(),
            i + pat@.len() <= text@.len(),
            k <= pat@.len(),
            forall|j: int| 0 <= j < k ==> text@[i + j] == pat@[j],
        decreases pat@.len() - k,
    {
        assert(i + k < n);
        if text[i + k] != pat[k] {
            return false;
        }
        k += 1;
    }
    true
}

/// First occurrence of `pat` in `text` at or after `from`.
pub fn find_at(text: &Vec<char>, pat: &Vec<char>, from: usize) -> (r: Option<usize>)
    ensures
        ({
            let f = find_from(text@, pat@, from as int);
            &&& r is Some <==> f is Some
            &&& r is Some ==> f == Some(r.unwrap() as int)
        }),
{
    let mut i: usize = from;
    while i <= text.len() && pat.len() <= text.len() - i
        invariant
            from <= i,
            find_from(text@, pat@, from as int) == find_from(text@, pat@, i as int),
        decreases text@.len() - i,
    {
        if eq_at(text, pat, i) {
            return Some(i);
        }
        i += 1;
    }
    None
}

/// Copies `text[from..to]` into a fresh vector.
pub fn copy_range(text: &Vec<char>, from: usize, to: usize) -> (r: Vec<char>)
    requires
        from <= to <= text@.len(),
    ensures
        r@ == text@.subrange(from as int, to as int),
{
    let mut out: Vec<char> = Vec::new();
    let mut i: usize = from;
    while i < to
        invariant
            from <= i <= to <= text@.len(),
            out@ == text@.subrange(from as int, i as int),
        decreases to - i,
    {
        out.push(text[i]);
        proof {
            assert(text@.subrange(from as int, i + 1 as int) =~= text@.subrange(
                from as int,
                i as int,
            ).push(text@[i as int]));
        }
        i += 1;
    }
    out
}

/// Spec-level counterpart of `find_substring_between`: the text strictly
/// between the first occurrence of `a` at or after `from` and the next
/// occurrence of `b` after it.
pub open spec fn extract_between(text: Seq<char>, from: int, a: Seq<char>, b: Seq<char>) -> Option<
    Seq<char>,
> {
    match find_from(text, a, from) {
        None => None,
        Some(i) => match find_from(text, b, i + a.len()) {
            None => None,
            Some(j) => Some(text.subrange(i + a.len(), j)),
        },
    }
}

/// The text strictly between the first occurrence of `starting_sub` at or
/// after `from` and the next occurrence of `ending_sub` after it.
pub fn find_substring_between(
    text: &Vec<char>,
    from: usize,
    starting_sub: &Vec<char>,
    ending_sub: &Vec<char>,
) -> (r: Option<Vec<char>>)
    ensures
        ({
            let e = extract_between(text@, from as int, starting_sub@, ending_sub@);
            &&& r is Some <==> e is Some
            &&& r is Some ==> r.unwrap()@ == e.unwrap()
        }),
{
    match find_at(text, starting_sub, from) {
        None => None,
        Some(i) => {
            let n = text.len();
            proof {
                lemma_find_from_some(text@, starting_sub@, from as int, i as int);
                assert(i + starting_sub@.len() <= n);
            }
            let start = i + starting_sub.len();
            match find_at(text, ending_sub, start) {
                None => None,
                Some(j) => {
                    proof {
                        lemma_find_from_some(text@, ending_sub@, start as int, j as int);
                    }
                    Some(copy_range(text, start, j))
                },
            }
        },
    }
}

/// The intentionally partial backslash decode table of the wire format:
/// `\\` yields a backslash, `\n` a newline, `\"` a quote, and any other
/// backslash-prefixed character passes through unchanged, backslash included.
pub open spec fn decode_escapes(s: Seq<char>) -> Seq<char>
    decreases s.len(),
{
    if s.len() == 0 {
        Seq::empty()
    } else if s.len() >= 2 && s[0] == '\\' && (s[1] == '\\' || s[1] == 'n' || s[1] == '"') {
        let c = if s[1] == '\\' {
            '\\'
        } else if s[1] == 'n' {
            '\n'
        } else {
            '"'
        };
        seq![c] + decode_escapes(s.skip(2))
    } else {
        seq![s[0]] + decode_escapes(s.skip(1))
    }
}

/// The decode table, stated rule by rule over every continuation: `\\`
/// decodes to one backslash, `\n` to one newline, `\"` to one literal
/// quote, and any other backslash-prefixed character passes through with
/// its backslash; a character that is no backslash passes through.
pub proof fn lemma_decode_table(a: char, b: char, rest: Seq<char>)
    ensures
        decode_escapes(seq!['\\', '\\'] + rest) == seq!['\\'] + decode_escapes(rest),
        decode_escapes(seq!['\\', 'n'] + rest) == seq!['\n'] + decode_escapes(rest),
        decode_escapes(seq!['\\', '"'] + rest) == seq!['"'] + decode_escapes(rest),
        b != '\\' && b != 'n' && b != '"' ==> decode_escapes(seq!['\\', b] + rest) == seq!['\\']
            + decode_escapes(seq![b] + rest),
        a != '\\' ==> decode_escapes(seq![a] + rest) == seq![a] + decode_escapes(rest),
{
    let bs = seq!['\\', '\\'] + rest;
    assert(bs.skip(2) =~= rest);
    let nl = seq!['\\', 'n'] + rest;
    assert(nl.skip(2) =~= rest);
    let qt = seq!['\\', '"'] + rest;
    assert(qt.skip(2) =~= rest);
    let ot = seq!['\\', b] + rest;
    assert(ot.skip(1) =~= seq![b] + rest);
    let pl = seq![a] + rest;
    assert(pl.skip(1) =~= rest);
    if a != '\\' {
        if pl.len() == 1 {
            assert(decode_escapes(pl) == seq![pl[0]] + decode_escapes(pl.skip(1)));
        }
    }
}

/// Applies the escape decode table to a scanned payload.
pub fn string_parser(text: &Vec<char>) -> (r: Vec<char>)
    ensures
        r@ == decode_escapes(text@),
{
    let mut out: Vec<char> = Vec::new();
    let mut i: usize = 0;
    proof {
        assert(text@.skip(0) =~= text@);
        assert(out@ + decode_escapes(text@) =~= decode_escapes(text@));
    }
    while i < text.len()
        invariant
            i <= text@.len(),
            decode_escapes(text@) == out@ + decode_escapes(text@.skip(i as int)),
        decreases text@.len() - i,
    {
        let ghost prev = out@;
        let ghost tail = text@.skip(i as int);
        let c = text[i];
        if c == '\\' && i + 1 < text.len() {
            let n = text[i + 1];
            if n == '\\' || n == 'n' || n == '"' {
                let d = if n == '\\' {
                    '\\'
                } else if n == 'n' {
                    '\n'
                } else {
                    '"'
                };
                out.push(d);
                proof {
                    assert(tail.skip(2) =~= text@.skip(i + 2 as int));
                    assert(prev + decode_escapes(tail) =~= out@ + decode_escapes(
                        text@.skip(i + 2 as int),
                    ));
                }
                i += 2;
            } else {
                out.push(c);
                proof {
                    assert(tail.skip(1) =~= text@.skip(i + 1 as int));
                    assert(prev + decode_escapes(tail) =~= out@ + decode_escapes(
                        text@.skip(i + 1 as int),
                    ));
                }
                i += 1;
            }
        } else {
            out.push(c);
            proof {
                assert(tail.skip(1) =~= text@.skip(i + 1 as int));
                assert(prev + decode_escapes(tail) =~= out@ + decode_escapes(
                    text@.skip(i + 1 as int),
                ));
            }
            i += 1;
        }
    }
    proof {
        assert(text@.skip(text@.len() as int) =~= Seq::<char>::empty());
        assert(out@ + decode_escapes(text@.skip(text@.len() as int)) =~= out@);
    }
    out
}

/// A decimal digit.
pub open spec fn is_dec_digit(c: char) -> bool {
    '0' <= c && c <= '9'
}

/// Every character of `s` is a decimal digit.
pub open spec fn all_digits(s: Seq<char>) -> bool {
    forall|i: int| 0 <= i < s.len() ==> is_dec_digit(s[i])
}

/// The value of a digit string, most significant digit first.
pub open spec fn digits_val(s: Seq<char>) -> int
    decreases s.len(),
{
    if s.len() == 0 {
        0
    } else {
        digits_val(s.drop_last()) * 10 + (s.last() as int - '0' as int)
    }
}

/// What `str::parse::<usize>` accepts: an optional leading `+`, then one or
/// more decimal digits, with a value that fits in `usize`.
pub open spec fn parse_usize_spec(s: Seq<char>) -> Option<int> {
    let t = if s.len() > 0 && s[0] == '+' {
        s.skip(1)
    } else {
        s
    };
    if t.len() == 0 || !all_digits(t) || digits_val(t) > usize::MAX {
        None
    } else {
        Some(digits_val(t))
    }
}

/// A digit string's value is never negative.
pub proof fn lemma_digits_nonneg(s: Seq<char>)
    requires
        all_digits(s),
    ensures
        digits_val(s) >= 0,
    decreases s.len(),
{
    if s.len() > 0 {
        assert(all_digits(s.drop_last()));
        lemma_digits_nonneg(s.drop_last());
    }
}

/// A prefix of a digit string never has a larger value than the whole.
pub proof fn lemma_digits_prefix_le(s: Seq<char>, k: int)
    requires
        all_digits(s),
        0 <= k <= s.len(),
    ensures
        digits_val(s.subrange(0, k)) <= digits_val(s),
    decreases s.len() - k,
{
    if k == s.len() {
        assert(s.subrange(0, k) =~= s);
    } else {
        let p = s.subrange(0, k);
        let q = s.subrange(0, k + 1);
        assert(q.drop_last() =~= p);
        assert(all_digits(p));
        lemma_digits_nonneg(p);
        lemma_digits_prefix_le(s, k + 1);
    }
}

/// Parses a decimal integer the way `str::parse::<usize>` does.
pub fn parse_usize(s: &Vec<char>) -> (r: Option<usize>)
    ensures
        ({
            let p = parse_usize_spec(s@);
            &&& r is Some <==> p is Some
            &&& r is Some ==> p == Some(r.unwrap() as int)
        }),
{
    let n = s.len();
    let offset: usize = if n > 0 && s[0] == '+' {
        1
    } else {
        0
    };
    let ghost t = if offset == 1 {
        s@.skip(1)
    } else {
        s@
    };
    if offset >= n {
        return None;
    }
    let mut acc: usize = 0;
    let mut i: usize = offset;
    proof {
        assert(t.subrange(0, 0) =~= Seq::<char>::empty());
    }
    while i < n
        invariant
            n == s@.len(),
            offset <= i <= n,
            offset == 0 || offset == 1,
            (offset == 1) <==> (n > 0 && s@[0] == '+'),
            t == if offset == 1 {
                s@.skip(1)
            } else {
                s@
            },
            t.len() == n - offset,
            forall|j: int| 0 <= j < t.len() ==> t[j] == s@[j + offset],
            forall|j: int| 0 <= j < i - offset ==> is_dec_digit(#[trigger] t[j]),
            acc == digits_val(t.subrange(0, i - offset)),
        decreases n - i,
    {
        let ghost k = i - offset;
        let c = s[i];
        if c < '0' || c > '9' {
            proof {
                assert(t[k] == c && !is_dec_digit(t[k]));
                assert(!all_digits(t));
            }
            return None;
        }
        let d: usize = (c as u32 as usize) - 48;
        let wide: u128 = (acc as u128) * 10 + (d as u128);
        proof {
            let p = t.subrange(0, k);
            let q = t.subrange(0, k + 1);
            assert(q.drop_last() =~= p);
            assert(q.last() == t[k] && t[k] == c);
            assert('0' as int == 48);
            assert(c as int - '0' as int == d as int);
            assert(digits_val(q) == acc * 10 + d);
        }
        if wide > (usize::MAX as u128) {
            proof {
                let q = t.subrange(0, k + 1);
                assert(forall|j: int| 0 <= j < q.len() ==> is_dec_digit(#[trigger] q[j]));
                assert(all_digits(q));
                if all_digits(t) {
                    lemma_digits_prefix_le(t, k + 1);
                    assert(digits_val(t) > usize::MAX);
                }
                assert(parse_usize_spec(s@) is None);
            }
            return None;
        }
        acc = wide as usize;
        i += 1;
    }
    proof {
        assert(t.subrange(0, t.len() as int) =~= t);
        assert(all_digits(t));
    }
    Some(acc)
}

/// The bracket-depth/quote-aware scan that locates the last acknowledged
/// event id: depth is tracked across `[` / `]` outside quoted spans, and at
/// each array opening at nesting depth 2 the token up to the next comma is
/// read as the id; the last such read wins. `None` marks a frame whose
/// depth-2 token is missing its comma or is not a number.
pub open spec fn aid_scan(s: Seq<char>, i: int, depth: int, in_str: bool, cur: int) -> Option<int>
    decreases s.len() - i,
    via aid_scan_decreases
{
    if i < 0 || i >= s.len() {
        Some(cur)
    } else if s[i] == ']' && !in_str {
        aid_scan(s, i + 1, depth - 1, in_str, cur)
    } else if s[i] == '[' && !in_str {
        if depth + 1 == 2 {
            match find_from(s, seq![','], i + 1) {
                None => None,
                Some(j) => match parse_usize_spec(s.subrange(i + 1, j)) {
                    None => None,
                    Some(v) => aid_scan(s, j + 1, depth + 1, in_str, v),
                },
            }
        } else {
            aid_scan(s, i + 1, depth + 1, in_str, cur)
        }
    } else if s[i] == '"' {
        aid_scan(s, i + 1, depth, !in_str, cur)
    } else {
        aid_scan(s, i + 1, depth, in_str, cur)
    }
}

#[via_fn]
proof fn aid_scan_decreases(s: Seq<char>, i: int, depth: int, in_str: bool, cur: int) {
    if 0 <= i < s.len() && s[i] == '[' && !in_str && depth + 1 == 2 {
        if let Some(j) = find_from(s, seq![','], i + 1) {
            lemma_find_from_some(s, seq![','], i + 1, j);
        }
    }
}

/// The acknowledgment id of a whole frame.
pub open spec fn find_max_aid_spec(s: Seq<char>) -> Option<int> {
    aid_scan(s, 0, 0, false, 0)
}

/// Runs the acknowledgment-id scan over a frame. `None` reports a frame on
/// which the scan cannot complete (no comma after a depth-2 array opening,
/// or a token that is not a number).
pub fn find_max_aid(text: &Vec<char>) -> (r: Option<usize>)
    ensures
        ({
            let a = find_max_aid_spec(text@);
            &&& r is Some <==> a is Some
            &&& r is Some ==> a == Some(r.unwrap() as int)
        }),
{
    let n = text.len();
    let mut comma: Vec<char> = Vec::new();
    comma.push(',');
    proof {
        assert(comma@ =~= seq![',']);
    }
    let mut i: usize = 0;
    let mut depth: i128 = 0;
    let mut in_str: bool = false;
    let mut cur: usize = 0;
    while i < n
        invariant
            n == text@.len(),
            comma@ == seq![','],
            i <= n,
            -(i as int) <= depth <= i as int,
            find_max_aid_spec(text@) == aid_scan(text@, i as int, depth as int, in_str, cur as int),
        decreases n - i,
    {
        let c = text[i];
        if c == ']' && !in_str {
            depth = depth - 1;
            i += 1;
        } else if c == '[' && !in_str {
            if depth + 1 == 2 {
                match find_at(text, &comma, i + 1) {
                    None => {
                        return None;
                    },
                    Some(j) => {
                        proof {
                            lemma_find_from_some(text@, comma@, i + 1, j as int);
                        }
                        let tok = copy_range(text, i + 1, j);
                        match parse_usize(&tok) {
                            None => {
                                return None;
                            },
                            Some(v) => {
                                cur = v;
                                depth = depth + 1;
                                i = j + 1;
                            },
                        }
                    },
                }
            } else {
                depth = depth + 1;
                i += 1;
            }
        } else if c == '"' {
            in_str = !in_str;
            i += 1;
        } else {
            i += 1;
        }
    }
    Some(cur)
}

/// In a UTF-8 byte stream, a byte that starts a character: anything but a
/// continuation byte.
pub open spec fn is_char_start(b: u8) -> bool {
    b < 128 || b >= 192
}

/// The first character-start offset at or after `i`, or the end of the
/// stream.
pub open spec fn snap_index(s: Seq<u8>, i: int) -> int
    decreases s.len() - i,
{
    if i < 0 || i >= s.len() {
        s.len() as int
    } else if is_char_start(s[i]) {
        i
    } else {
        snap_index(s, i + 1)
    }
}

/// The snapped offset never falls before the requested one (while in range)
/// and never runs past the end.
pub proof fn lemma_snap_bounds(s: Seq<u8>, i: int)
    requires
        0 <= i,
    ensures
        snap_index(s, i) <= s.len(),
        i <= s.len() ==> i <= snap_index(s, i),
    decreases s.len() - i,
{
    if i < s.len() && !is_char_start(s[i]) {
        lemma_snap_bounds(s, i + 1);
    }
}

/// Snapping keeps order.
pub proof fn lemma_snap_mono(s: Seq<u8>, a: int, b: int)
    requires
        0 <= a <= b,
    ensures
        snap_index(s, a) <= snap_index(s, b),
    decreases b - a,
{
    lemma_snap_bounds(s, a);
    lemma_snap_bounds(s, b);
    if a < b && a < s.len() && !is_char_start(s[a]) {
        lemma_snap_mono(s, a + 1, b);
    }
}

/// Snaps `start` and `end` up to the next character starts of a UTF-8 byte
/// stream and copies the bytes between them, so that the cut can never split
/// a multi-byte character.
pub fn slice_at_char_boundaries(s: &Vec<u8>, start: usize, end: usize) -> (r: Vec<u8>)
    requires
        start <= end,
    ensures
        r@ == s@.subrange(snap_index(s@, start as int), snap_index(s@, end as int)),
{
    let a = snap_exec(s, start);
    let b = snap_exec(s, end);
    proof {
        lemma_snap_mono(s@, start as int, end as int);
        lemma_snap_bounds(s@, start as int);
        lemma_snap_bounds(s@, end as int);
    }
    copy_bytes(s, a, b)
}

/// Walks forward from `from` to the next character start, or the end.
fn snap_exec(s: &Vec<u8>, from: usize) -> (r: usize)
    ensures
        r as int == snap_index(s@, from as int),
{
    let n = s.len();
    let mut i: usize = from;
    while i < n && !(s[i] < 128 || s[i] >= 192)
        invariant
            n == s@.len(),
            from <= i,
            snap_index(s@, from as int) == snap_index(s@, i as int),
        decreases n - i,
    {
        i += 1;
    }
    if i < n {
        i
    } else {
        n
    }
}

/// Copies `s[from..to]` into a fresh vector.
fn copy_bytes(s: &Vec<u8>, from: usize, to: usize) -> (r: Vec<u8>)
    requires
        from <= to <= s@.len(),
    ensures
        r@ == s@.subrange(from as int, to as int),
{
    let mut out: Vec<u8> = Vec::new();
    let mut i: usize = from;
    while i < to
        invariant
            from <= i <= to <= s@.len(),
            out@ == s@.subrange(from as int, i as int),
        decreases to - i,
    {
        out.push(s[i]);
        proof {
            assert(s@.subrange(from as int, i + 1 as int) =~= s@.subrange(from as int, i as int).push(
                s@[i as int],
            ));
        }
        i += 1;
    }
    out
}

} // verus!
