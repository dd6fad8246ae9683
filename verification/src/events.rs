//! Parsing of one long-poll event frame and its effect on the session: the
//! acknowledgment-id update, the revision-marker scan where the textually
//! last occurrence wins, and the command replay that mutates the content
//! mirror in stream order.
//!
//! Known limitation, preserved on purpose: the quoted-string scan for an
//! insert payload looks for the next double quote and does not unescape
//! while scanning, so a payload whose decoded text contains an escaped
//! quote can mis-locate the field boundary.

use vstd::prelude::*;

use crate::error::DocError;
use crate::mirror::clamp;
use crate::mirror::delete_chars;
use crate::mirror::insert_chars;
use crate::mirror::splice_delete;
use crate::mirror::splice_insert;
use crate::session::same_identity;
use crate::session::same_session;
use crate::session::Session;
use crate::trusted::str_to_chars;
use crate::wire::decode_escapes;
use crate::wire::extract_between;
use crate::wire::find_from;
use crate::wire::find_max_aid_spec;
use crate::wire::lemma_find_from_some;
use crate::wire::parse_usize_spec;

verus! {

/// The revision-marker scan: each occurrence of the update marker rewrites
/// the revision with the first comma-to-bracket token after it; the last
/// occurrence in the frame wins. The flag is false when a token is missing
/// or unparsable; the revision then keeps the value the previous
/// occurrences produced.
pub open spec fn rev_scan(text: Seq<char>, i: int, rev: int) -> (bool, int)
    decreases text.len() - i,
    via rev_scan_dec
{
    match find_from(text, "\"cem\":{\"as\":["@, i) {
        None => (true, rev),
        Some(idx) => match extract_between(text, idx, ","@, "]"@) {
            None => (false, rev),
            Some(tok) => match parse_usize_spec(tok) {
                None => (false, rev),
                Some(v) => rev_scan(text, idx + "\"cem\":{\"as\":["@.len(), v),
            },
        },
    }
}

#[via_fn]
proof fn rev_scan_dec(text: Seq<char>, i: int, rev: int) {
    reveal_strlit("\"cem\":{\"as\":[");
    if let Some(idx) = find_from(text, "\"cem\":{\"as\":["@, i) {
        lemma_find_from_some(text, "\"cem\":{\"as\":["@, i, idx);
    }
}

/// The command replay: each command-type marker is read in stream order;
/// inserts and deletes mutate the content through the same position rules
/// as local edits, unknown codes are ignored. The flag is false when a
/// field is missing or unparsable or a position is out of range; the
/// content then keeps the mutations the previous commands produced.
pub open spec fn replay(text: Seq<char>, i: int, content: Seq<char>) -> (bool, Seq<char>)
    decreases text.len() - i,
    via replay_dec
{
    match find_from(text, "ty\":\""@, i) {
        None => (true, content),
        Some(idx) => {
            let w = idx + "ty\":\""@.len();
            match find_from(text, "\""@, w) {
                None => (false, content),
                Some(q) => {
                    let code = text.subrange(w, q);
                    if code == "is"@ {
                        match extract_between(text, w, "\"ibi\":"@, ","@) {
                            None => (false, content),
                            Some(ptok) => match parse_usize_spec(ptok) {
                                None => (false, content),
                                Some(pos) => match find_from(text, "\"s\":\""@, w) {
                                    None => (false, content),
                                    Some(si) => {
                                        let s_start = si + "\"s\":\""@.len();
                                        match find_from(text, "\""@, s_start) {
                                            None => (false, content),
                                            Some(e) => {
                                                let decoded = decode_escapes(
                                                    text.subrange(s_start, e),
                                                );
                                                if pos == 0 || pos - 1 > content.len() {
                                                    (false, content)
                                                } else {
                                                    replay(
                                                        text,
                                                        w,
                                                        insert_chars(content, pos, decoded),
                                                    )
                                                }
                                            },
                                        }
                                    },
                                },
                            },
                        }
                    } else if code == "ds"@ {
                        match extract_between(text, w, "\"si\":"@, ","@) {
                            None => (false, content),
                            Some(stok) => match parse_usize_spec(stok) {
                                None => (false, content),
                                Some(s1) => match extract_between(text, w, "\"ei\":"@, "}"@) {
                                    None => (false, content),
                                    Some(etok) => match parse_usize_spec(etok) {
                                        None => (false, content),
                                        Some(e1) => {
                                            if s1 == 0 {
                                                (false, content)
                                            } else if clamp(s1 - 1, content.len() as int) > clamp(
                                                e1,
                                                content.len() as int,
                                            ) {
                                                (false, content)
                                            } else {
                                                replay(text, w, delete_chars(content, s1, e1))
                                            }
                                        },
                                    },
                                },
                            },
                        }
                    } else {
                        replay(text, w, content)
                    }
                },
            }
        },
    }
}

#[via_fn]
proof fn replay_dec(text: Seq<char>, i: int, content: Seq<char>) {
    reveal_strlit("ty\":\"");
    if let Some(idx) = find_from(text, "ty\":\""@, i) {
        lemma_find_from_some(text, "ty\":\""@, i, idx);
    }
}

/// How one event frame changes a session: the acknowledgment cursor moves
/// past the highest id the scan saw (even when later parsing fails), then
/// the revision scan and the command replay run, each leaving its partial
/// progress behind on failure.
pub open spec fn frame_result(
    pre: Session,
    text: Seq<char>,
    post: Session,
    r: Result<(), DocError>,
) -> bool {
    let aid = find_max_aid_spec(text);
    &&& same_identity(pre, post)
    &&& post.push_req_count == pre.push_req_count
    &&& (aid is None ==> r == Err::<(), DocError>(DocError::ParseError) && post.rev == pre.rev
        && post.event_req_count == pre.event_req_count && post.content_cache@
        == pre.content_cache@)
    &&& (aid is Some && aid.unwrap() >= usize::MAX ==> r == Err::<(), DocError>(
        DocError::ParseError,
    ) && post.rev == pre.rev && post.event_req_count == pre.event_req_count
        && post.content_cache@ == pre.content_cache@)
    &&& (aid is Some && aid.unwrap() < usize::MAX ==> ({
        let rs = rev_scan(text, 0, pre.rev as int);
        &&& post.event_req_count == aid.unwrap() + 1
        &&& post.rev as int == rs.1
        &&& (!rs.0 ==> r == Err::<(), DocError>(DocError::ParseError) && post.content_cache@
            == pre.content_cache@)
        &&& (rs.0 ==> ({
            let rp = replay(text, 0, pre.content_cache@);
            &&& post.content_cache@ == rp.1
            &&& (rp.0 ==> r is Ok)
            &&& (!rp.0 ==> r == Err::<(), DocError>(DocError::ParseError))
        }))
    }))
}

/// What the transport reported for one long poll: a deadline that expired
/// with nothing new, or a response body.
pub enum PollOutcome {
    Timeout,
    Body(Vec<char>),
}

impl Session {
    /// Applies one event frame to the session.
    pub fn parse_event_response(&mut self, text: &Vec<char>) -> (r: Result<(), DocError>)
        ensures
            frame_result(*old(self), text@, *final(self), r),
    {
        let aid = match crate::wire::find_max_aid(text) {
            None => {
                return Err(DocError::ParseError);
            },
            Some(a) => a,
        };
        if aid == usize::MAX {
            return Err(DocError::ParseError);
        }
        self.event_req_count = aid + 1;
        let n = text.len();

        let cem = str_to_chars("\"cem\":{\"as\":[");
        let comma = str_to_chars(",");
        let rbr = str_to_chars("]");
        let mut w: usize = 0;
        let mut done = false;
        while !done
            invariant
                n == text@.len(),
                cem@ == "\"cem\":{\"as\":["@,
                comma@ == ","@,
                rbr@ == "]"@,
                same_identity(*old(self), *self),
                self.push_req_count == old(self).push_req_count,
                self.content_cache@ == old(self).content_cache@,
                find_max_aid_spec(text@) == Some(aid as int),
                aid < usize::MAX,
                self.event_req_count == aid + 1,
                w <= text@.len() || w == 0,
                rev_scan(text@, 0, old(self).rev as int) == rev_scan(
                    text@,
                    w as int,
                    self.rev as int,
                ),
                done ==> rev_scan(text@, 0, old(self).rev as int) == (true, self.rev as int),
            decreases
                    text@.len() - w + if done {
                        0int
                    } else {
                        1int
                    },
        {
            match crate::wire::find_at(text, &cem, w) {
                None => {
                    done = true;
                },
                Some(idx) => {
                    proof {
                        lemma_find_from_some(text@, cem@, w as int, idx as int);
                        reveal_strlit("\"cem\":{\"as\":[");
                        assert(idx + 13 <= n);
                    }
                    match crate::wire::find_substring_between(text, idx, &comma, &rbr) {
                        None => {
                            return Err(DocError::ParseError);
                        },
                        Some(tok) => match crate::wire::parse_usize(&tok) {
                            None => {
                                return Err(DocError::ParseError);
                            },
                            Some(v) => {
                                self.rev = v;
                                w = idx + 13;
                            },
                        },
                    }
                },
            }
        }

        let ty = str_to_chars("ty\":\"");
        let quote = str_to_chars("\"");
        let ibi_m = str_to_chars("\"ibi\":");
        let s_m = str_to_chars("\"s\":\"");
        let si_m = str_to_chars("\"si\":");
        let ei_m = str_to_chars("\"ei\":");
        let rcurl = str_to_chars("}");
        let mut w2: usize = 0;
        let mut done2 = false;
        while !done2
            invariant
                n == text@.len(),
                ty@ == "ty\":\""@,
                quote@ == "\""@,
                ibi_m@ == "\"ibi\":"@,
                s_m@ == "\"s\":\""@,
                si_m@ == "\"si\":"@,
                ei_m@ == "\"ei\":"@,
                rcurl@ == "}"@,
                comma@ == ","@,
                same_identity(*old(self), *self),
                self.push_req_count == old(self).push_req_count,
                find_max_aid_spec(text@) == Some(aid as int),
                aid < usize::MAX,
                self.event_req_count == aid + 1,
                rev_scan(text@, 0, old(self).rev as int) == (true, self.rev as int),
                w2 <= text@.len() || w2 == 0,
                replay(text@, 0, old(self).content_cache@) == replay(
                    text@,
                    w2 as int,
                    self.content_cache@,
                ),
                done2 ==> replay(text@, 0, old(self).content_cache@) == (
                    true,
                    self.content_cache@,
                ),
            decreases
                    text@.len() - w2 + if done2 {
                        0int
                    } else {
                        1int
                    },
        {
            match crate::wire::find_at(text, &ty, w2) {
                None => {
                    done2 = true;
                },
                Some(idx) => {
                    proof {
                        lemma_find_from_some(text@, ty@, w2 as int, idx as int);
                        reveal_strlit("ty\":\"");
                        assert(idx + 5 <= n);
                    }
                    let cw = idx + 5;
                    match crate::wire::find_at(text, &quote, cw) {
                        None => {
                            return Err(DocError::ParseError);
                        },
                        Some(q) => {
                            proof {
                                lemma_find_from_some(text@, quote@, cw as int, q as int);
                            }
                            let code = crate::wire::copy_range(text, cw, q);
                            if code.len() == 2 && code[0] == 'i' && code[1] == 's' {
                                proof {
                                    reveal_strlit("is");
                                    assert(code@ =~= "is"@);
                                }
                                let ptok = match crate::wire::find_substring_between(
                                    text,
                                    cw,
                                    &ibi_m,
                                    &comma,
                                ) {
                                    None => {
                                        return Err(DocError::ParseError);
                                    },
                                    Some(t) => t,
                                };
                                let pos = match crate::wire::parse_usize(&ptok) {
                                    None => {
                                        return Err(DocError::ParseError);
                                    },
                                    Some(p) => p,
                                };
                                let sidx = match crate::wire::find_at(text, &s_m, cw) {
                                    None => {
                                        return Err(DocError::ParseError);
                                    },
                                    Some(s) => s,
                                };
                                proof {
                                    lemma_find_from_some(text@, s_m@, cw as int, sidx as int);
                                    reveal_strlit("\"s\":\"");
                                    assert(sidx + 5 <= n);
                                }
                                let s_start = sidx + 5;
                                let e = match crate::wire::find_at(text, &quote, s_start) {
                                    None => {
                                        return Err(DocError::ParseError);
                                    },
                                    Some(e) => e,
                                };
                                proof {
                                    lemma_find_from_some(text@, quote@, s_start as int, e as int);
                                }
                                let raw = crate::wire::copy_range(text, s_start, e);
                                let decoded = crate::wire::string_parser(&raw);
                                if pos == 0 {
                                    return Err(DocError::ParseError);
                                }
                                if pos - 1 > self.content_cache.len() {
                                    return Err(DocError::ParseError);
                                }
                                splice_insert(&mut self.content_cache, pos, &decoded);
                                w2 = cw;
                            } else if code.len() == 2 && code[0] == 'd' && code[1] == 's' {
                                proof {
                                    reveal_strlit("is");
                                    reveal_strlit("ds");
                                    assert(code@ =~= "ds"@);
                                    assert(code@ != "is"@);
                                }
                                let stok = match crate::wire::find_substring_between(
                                    text,
                                    cw,
                                    &si_m,
                                    &comma,
                                ) {
                                    None => {
                                        return Err(DocError::ParseError);
                                    },
                                    Some(t) => t,
                                };
                                let s1 = match crate::wire::parse_usize(&stok) {
                                    None => {
                                        return Err(DocError::ParseError);
                                    },
                                    Some(p) => p,
                                };
                                let etok = match crate::wire::find_substring_between(
                                    text,
                                    cw,
                                    &ei_m,
                                    &rcurl,
                                ) {
                                    None => {
                                        return Err(DocError::ParseError);
                                    },
                                    Some(t) => t,
                                };
                                let e1 = match crate::wire::parse_usize(&etok) {
                                    None => {
                                        return Err(DocError::ParseError);
                                    },
                                    Some(p) => p,
                                };
                                if s1 == 0 {
                                    return Err(DocError::ParseError);
                                }
                                let n = self.content_cache.len();
                                let a = if s1 - 1 < n {
                                    s1 - 1
                                } else {
                                    n
                                };
                                let b = if e1 < n {
                                    e1
                                } else {
                                    n
                                };
                                if a > b {
                                    return Err(DocError::ParseError);
                                }
                                splice_delete(&mut self.content_cache, s1, e1);
                                w2 = cw;
                            } else {
                                proof {
                                    reveal_strlit("is");
                                    reveal_strlit("ds");
                                    assert(code@ != "is"@);
                                    assert(code@ != "ds"@);
                                }
                                w2 = cw;
                            }
                        },
                    }
                },
            }
        }
        Ok(())
    }

    /// Decides what one long-poll outcome means: an expired deadline is not
    /// an error but "no new events", a short frame holding the noop marker
    /// likewise, and anything else is handed to the event-frame parser.
    pub fn apply_poll_response(&mut self, outcome: PollOutcome) -> (r: Result<(), DocError>)
        ensures
            outcome is Timeout ==> r is Ok && same_session(*old(self), *final(self)),
            outcome matches PollOutcome::Body(t) ==> ({
                if t@.len() < 25 && find_from(t@, "noop"@, 0) is Some {
                    r is Ok && same_session(*old(self), *final(self))
                } else {
                    frame_result(*old(self), t@, *final(self), r)
                }
            }),
    {
        match outcome {
            PollOutcome::Timeout => Ok(()),
            PollOutcome::Body(t) => {
                let noop = str_to_chars("noop");
                if t.len() < 25 {
                    if crate::wire::find_at(&t, &noop, 0).is_some() {
                        return Ok(());
                    }
                }
                self.parse_event_response(&t)
            },
        }
    }
}

} // verus!
