//! The session engine: bootstrap parsing, command-bundle construction, the
//! request descriptions for every endpoint, and the state transitions that
//! local edits, the bind handshake, long-poll responses and the terminating
//! handshake perform on the session.
//!
//! The engine never talks to the network itself. Each operation is split
//! into a request-description step (what to send) and an apply step (how the
//! session changes once the transport reported its outcome); the caller
//! performs the HTTP round trip in between.

use vstd::prelude::*;

use crate::error::DocError;
use crate::mirror::delete_chars;
use crate::mirror::insert_chars;
use crate::mirror::splice_delete;
use crate::mirror::splice_insert;
use crate::trusted::chars_to_string;
use crate::trusted::percent_encode_chars;
use crate::trusted::percent_encoded;
use crate::trusted::random_lowercase_letter;
use crate::trusted::str_to_chars;

verus! {

/// The decimal rendering of a non-negative integer, as `usize` formatting
/// produces it.
pub open spec fn dec_str(n: int) -> Seq<char>
    decreases n,
{
    if n < 10 {
        seq![((48 + n) as u8) as char]
    } else {
        dec_str(n / 10).push(((48 + (n % 10)) as u8) as char)
    }
}

/// Renders `n` in decimal.
pub fn usize_to_chars(n: usize) -> (r: Vec<char>)
    ensures
        r@ == dec_str(n as int),
    decreases n,
{
    if n < 10 {
        let mut v: Vec<char> = Vec::new();
        v.push(((48 + n as u8)) as char);
        proof {
            assert(v@ =~= seq![((48 + n as int) as u8) as char]);
        }
        v
    } else {
        let mut v = usize_to_chars(n / 10);
        v.push((48 + (n % 10) as u8) as char);
        v
    }
}

/// Appends all of `src` onto `dst`.
pub fn append_chars(dst: &mut Vec<char>, src: &Vec<char>)
    ensures
        final(dst)@ == old(dst)@ + src@,
{
    crate::mirror::extend_range(dst, src, 0, src.len());
    proof {
        assert(src@.subrange(0, src@.len() as int) =~= src@);
    }
}

/// Appends a literal onto `dst`.
pub fn append_lit(dst: &mut Vec<char>, lit: &str)
    ensures
        final(dst)@ == old(dst)@ + lit@,
{
    let v = str_to_chars(lit);
    append_chars(dst, &v);
}

/// `key=value` pairs joined with `&`, the way the save endpoint's form body
/// is assembled.
pub open spec fn join_params(ps: Seq<(Seq<char>, Seq<char>)>) -> Seq<char>
    decreases ps.len(),
{
    if ps.len() == 0 {
        Seq::empty()
    } else if ps.len() == 1 {
        ps[0].0 + seq!['='] + ps[0].1
    } else {
        join_params(ps.drop_last()) + seq!['&'] + ps.last().0 + seq!['='] + ps.last().1
    }
}

/// The views of a sequence of character-vector pairs.
pub open spec fn pairs_view(ps: Seq<(Vec<char>, Vec<char>)>) -> Seq<(Seq<char>, Seq<char>)> {
    ps.map_values(|p: (Vec<char>, Vec<char>)| (p.0@, p.1@))
}

/// Joins `key=value` pairs with `&` into a request body.
pub fn build_req_body(params: &Vec<(Vec<char>, Vec<char>)>) -> (r: Vec<char>)
    ensures
        r@ == join_params(pairs_view(params@)),
{
    let mut out: Vec<char> = Vec::new();
    let mut i: usize = 0;
    proof {
        assert(pairs_view(params@).subrange(0, 0) =~= Seq::<(Seq<char>, Seq<char>)>::empty());
    }
    while i < params.len()
        invariant
            i <= params@.len(),
            out@ == join_params(pairs_view(params@).subrange(0, i as int)),
        decreases params@.len() - i,
    {
        let ghost pv = pairs_view(params@);
        if i > 0 {
            append_lit(&mut out, "&");
        }
        let p = &params[i];
        append_chars(&mut out, &p.0);
        append_lit(&mut out, "=");
        append_chars(&mut out, &p.1);
        proof {
            reveal_strlit("&");
            reveal_strlit("=");
            assert("&"@ =~= seq!['&']);
            assert("="@ =~= seq!['=']);
            assert(pv.subrange(0, i + 1 as int).drop_last() =~= pv.subrange(0, i as int));
            assert(pv.subrange(0, i + 1 as int).last() == pv[i as int]);
            assert(pv[i as int] == (params@[i as int].0@, params@[i as int].1@));
            assert(out@ =~= join_params(pv.subrange(0, i + 1 as int)));
        }
        i += 1;
    }
    proof {
        assert(pairs_view(params@).subrange(0, params@.len() as int) =~= pairs_view(params@));
    }
    out
}

/// The state of one document connection: the identifiers established at
/// bootstrap, the binding identifier once the bind handshake ran, the
/// content mirror, the closed flag, and the revision / request counters.
pub struct Session {
    pub session_id: String,
    pub doc_id: String,
    pub docs_smv: String,
    pub user_id: String,
    pub big_sid: Option<String>,
    pub content_cache: Vec<char>,
    pub closed: bool,
    pub push_req_count: usize,
    pub event_req_count: usize,
    pub rev: usize,
}

/// One network request, described as plain values: POST or GET, the path
/// segment under the document, the query parameters in order, and an
/// optional body.
pub struct RequestPlan {
    pub post: bool,
    pub path: String,
    pub params: Vec<(String, String)>,
    pub body: Option<String>,
}

/// The views of a sequence of string pairs.
pub open spec fn kv_view(ps: Seq<(String, String)>) -> Seq<(Seq<char>, Seq<char>)> {
    ps.map_values(|p: (String, String)| (p.0@, p.1@))
}

/// Everything of a session except its mirror and counters.
pub open spec fn same_identity(a: Session, b: Session) -> bool {
    &&& b.session_id == a.session_id
    &&& b.doc_id == a.doc_id
    &&& b.docs_smv == a.docs_smv
    &&& b.user_id == a.user_id
    &&& b.big_sid == a.big_sid
    &&& b.closed == a.closed
}

/// A session with nothing changed at all.
pub open spec fn same_session(a: Session, b: Session) -> bool {
    &&& same_identity(a, b)
    &&& b.content_cache@ == a.content_cache@
    &&& b.push_req_count == a.push_req_count
    &&& b.event_req_count == a.event_req_count
    &&& b.rev == a.rev
}

/// The `smb` token derived from the server model version.
pub open spec fn smb_of(smv: Seq<char>) -> Seq<char> {
    "["@ + smv + ", oAM=]"@
}

/// The serialized bundle of a single insert command.
pub open spec fn insert_bundle(pos: int, text: Seq<char>, sid: Seq<char>, req_id: int) -> Seq<
    char,
> {
    "[{\"commands\":[{\"ty\":\"is\",\"ibi\":"@ + dec_str(pos) + ",\"s\":\""@ + text
        + "\"}],\"sid\":\""@ + sid + "\",\"reqId\":"@ + dec_str(req_id) + "}]"@
}

/// The serialized bundle of a single delete command.
pub open spec fn delete_bundle(start: int, end: int, sid: Seq<char>, req_id: int) -> Seq<char> {
    "[{\"commands\":[{\"ty\":\"ds\",\"si\":"@ + dec_str(start) + ",\"ei\":"@ + dec_str(end)
        + "}],\"sid\":\""@ + sid + "\",\"reqId\":"@ + dec_str(req_id) + "}]"@
}

/// The body of a save request: the current revision and the percent-encoded
/// bundle.
pub open spec fn save_body(rev: int, bundle: Seq<char>) -> Seq<char> {
    "rev="@ + dec_str(rev) + "&bundles="@ + percent_encoded(bundle)
}

/// The fixed query parameters of the save endpoint.
pub open spec fn save_params(s: Session) -> Seq<(Seq<char>, Seq<char>)> {
    seq![
        ("id"@, s.doc_id@),
        ("sid"@, s.session_id@),
        ("vc"@, "1"@),
        ("c"@, "1"@),
        ("w"@, "1"@),
        ("flr"@, "0"@),
        ("smv"@, s.docs_smv@),
        ("smb"@, smb_of(s.docs_smv@)),
        ("includes_info_params"@, "true"@),
        ("cros_files"@, "false"@),
        ("tab"@, "t.0"@),
    ]
}

/// The fixed query parameters of the bind handshake, ending in the nonce.
pub open spec fn bind_params(s: Session, zx: Seq<char>) -> Seq<(Seq<char>, Seq<char>)> {
    seq![
        ("id"@, s.doc_id@),
        ("sid"@, s.session_id@),
        ("includes_info_params"@, "true"@),
        ("cros_files"@, "false"@),
        ("VER"@, "8"@),
        ("tab"@, "t.0"@),
        ("lsq"@, "-1"@),
        ("u"@, s.user_id@),
        ("vc"@, "1"@),
        ("c"@, "1"@),
        ("w"@, "1"@),
        ("flr"@, "0"@),
        ("gsi"@, ""@),
        ("smv"@, s.docs_smv@),
        ("smb"@, smb_of(s.docs_smv@)),
        ("cimpl"@, "0"@),
        ("t"@, "1"@),
        ("zx"@, zx),
    ]
}

/// The query parameters of one long poll: the bind base set plus the rpc
/// routing fields, the acknowledgment cursor and the nonce.
pub open spec fn poll_params(s: Session, now: int, big: Seq<char>, zx: Seq<char>) -> Seq<
    (Seq<char>, Seq<char>),
> {
    seq![
        ("id"@, s.doc_id@),
        ("sid"@, s.session_id@),
        ("includes_info_params"@, "true"@),
        ("cros_files"@, "false"@),
        ("VER"@, "8"@),
        ("tab"@, "t.0"@),
        ("isq"@, dec_str(now)),
        ("u"@, s.user_id@),
        ("vc"@, "1"@),
        ("c"@, "1"@),
        ("w"@, "1"@),
        ("flr"@, "0"@),
        ("gsi"@, ""@),
        ("smv"@, s.docs_smv@),
        ("smb"@, smb_of(s.docs_smv@)),
        ("cimpl"@, "0"@),
        ("RID"@, "rpc"@),
        ("SID"@, big),
        ("CI"@, "1"@),
        ("TYPE"@, "xmlhttp"@),
        ("t"@, "1"@),
        ("AID"@, dec_str(s.event_req_count as int)),
        ("zx"@, zx),
    ]
}

/// The fixed query parameters of the leave endpoint.
pub open spec fn leave_params(s: Session) -> Seq<(Seq<char>, Seq<char>)> {
    seq![
        ("id"@, s.doc_id@),
        ("sid"@, s.session_id@),
        ("vc"@, "1"@),
        ("c"@, "1"@),
        ("w"@, "1"@),
        ("flr"@, "0"@),
        ("smv"@, s.docs_smv@),
        ("smb"@, smb_of(s.docs_smv@)),
    ]
}

impl Session {
    /// Parses the landing page of a document: the five required identifiers,
    /// each between its fixed markers, and the optional initial content
    /// blob, which passes through escape decoding. Any missing marker or an
    /// unparsable starting revision is a parse failure.
    pub fn bootstrap(page: &Vec<char>) -> (r: Result<Session, DocError>)
        ensures
            ({
                let sid = crate::wire::extract_between(page@, 0, "_createKixApplication('"@, "',"@);
                let did = crate::wire::extract_between(page@, 0, "'docid': '"@, "'"@);
                let smv = crate::wire::extract_between(page@, 0, "\"docs-smv\":"@, ","@);
                let rv = crate::wire::extract_between(
                    page@,
                    0,
                    "DOCS_warmStartDocumentLoader.startLoad( "@,
                    "."@,
                );
                let uid = crate::wire::extract_between(page@, 0, "'oui': '"@, "'"@);
                let blob = crate::wire::extract_between(
                    page@,
                    0,
                    "DOCS_modelChunk = {\"chunk\":[{\"ty\":\"is\",\"ibi\":1,\"s\":\""@,
                    "\"},"@,
                );
                &&& (r is Ok <==> sid is Some && did is Some && smv is Some && rv is Some
                    && uid is Some && crate::wire::parse_usize_spec(rv.unwrap()) is Some)
                &&& (r is Err ==> r == Err::<Session, DocError>(DocError::ParseError))
                &&& (r is Ok ==> ({
                    let s = r.unwrap();
                    &&& s.session_id@ == sid.unwrap()
                    &&& s.doc_id@ == did.unwrap()
                    &&& s.docs_smv@ == smv.unwrap()
                    &&& s.user_id@ == uid.unwrap()
                    &&& s.rev as int == crate::wire::parse_usize_spec(rv.unwrap()).unwrap()
                    &&& s.big_sid is None
                    &&& !s.closed
                    &&& s.push_req_count == 0
                    &&& s.event_req_count == 0
                    &&& s.content_cache@ == crate::wire::decode_escapes(
                        if blob is Some {
                            blob.unwrap()
                        } else {
                            Seq::<char>::empty()
                        },
                    )
                }))
            }),
    {
        let m_sid_a = str_to_chars("_createKixApplication('");
        let m_sid_b = str_to_chars("',");
        let m_did_a = str_to_chars("'docid': '");
        let m_q = str_to_chars("'");
        let m_smv_a = str_to_chars("\"docs-smv\":");
        let m_comma = str_to_chars(",");
        let m_rev_a = str_to_chars("DOCS_warmStartDocumentLoader.startLoad( ");
        let m_dot = str_to_chars(".");
        let m_uid_a = str_to_chars("'oui': '");
        let m_blob_a = str_to_chars("DOCS_modelChunk = {\"chunk\":[{\"ty\":\"is\",\"ibi\":1,\"s\":\"");
        let m_blob_b = str_to_chars("\"},");

        let sid = match crate::wire::find_substring_between(page, 0, &m_sid_a, &m_sid_b) {
            Some(v) => v,
            None => {
                return Err(DocError::ParseError);
            },
        };
        let did = match crate::wire::find_substring_between(page, 0, &m_did_a, &m_q) {
            Some(v) => v,
            None => {
                return Err(DocError::ParseError);
            },
        };
        let smv = match crate::wire::find_substring_between(page, 0, &m_smv_a, &m_comma) {
            Some(v) => v,
            None => {
                return Err(DocError::ParseError);
            },
        };
        let rv = match crate::wire::find_substring_between(page, 0, &m_rev_a, &m_dot) {
            Some(v) => v,
            None => {
                return Err(DocError::ParseError);
            },
        };
        let uid = match crate::wire::find_substring_between(page, 0, &m_uid_a, &m_q) {
            Some(v) => v,
            None => {
                return Err(DocError::ParseError);
            },
        };
        let rev = match crate::wire::parse_usize(&rv) {
            Some(v) => v,
            None => {
                return Err(DocError::ParseError);
            },
        };
        let blob = match crate::wire::find_substring_between(page, 0, &m_blob_a, &m_blob_b) {
            Some(v) => v,
            None => Vec::new(),
        };
        let content = crate::wire::string_parser(&blob);
        Ok(
            Session {
                session_id: chars_to_string(&sid),
                doc_id: chars_to_string(&did),
                docs_smv: chars_to_string(&smv),
                user_id: chars_to_string(&uid),
                big_sid: None,
                content_cache: content,
                closed: false,
                push_req_count: 0,
                event_req_count: 0,
                rev,
            },
        )
    }

    /// The 12-character random lowercase nonce sent on bind and poll
    /// requests; its value is opaque to the protocol.
    pub fn gen_zx(&self) -> (r: String)
        ensures
            r@.len() == 12,
            forall|i: int| 0 <= i < 12 ==> 'a' <= #[trigger] r@[i] && r@[i] <= 'y',
    {
        let mut v: Vec<char> = Vec::new();
        let mut i: usize = 0;
        while i < 12
            invariant
                i <= 12,
                v@.len() == i,
                forall|j: int| 0 <= j < i ==> 'a' <= #[trigger] v@[j] && v@[j] <= 'y',
            decreases 12 - i,
        {
            v.push(random_lowercase_letter());
            i += 1;
        }
        chars_to_string(&v)
    }

    /// The `smb` token echoed on save, bind and leave requests.
    pub fn gen_smb(&self) -> (r: String)
        ensures
            r@ == smb_of(self.docs_smv@),
    {
        let mut v: Vec<char> = Vec::new();
        append_lit(&mut v, "[");
        let smv = str_to_chars(self.docs_smv.as_str());
        append_chars(&mut v, &smv);
        append_lit(&mut v, ", oAM=]");
        chars_to_string(&v)
    }

    /// The fixed save-endpoint query parameters.
    fn save_query(&self) -> (ps: Vec<(String, String)>)
        ensures
            kv_view(ps@) == save_params(*self),
    {
        let mut ps: Vec<(String, String)> = Vec::new();
        ps.push((String::from_str("id"), self.doc_id.clone()));
        ps.push((String::from_str("sid"), self.session_id.clone()));
        ps.push((String::from_str("vc"), String::from_str("1")));
        ps.push((String::from_str("c"), String::from_str("1")));
        ps.push((String::from_str("w"), String::from_str("1")));
        ps.push((String::from_str("flr"), String::from_str("0")));
        ps.push((String::from_str("smv"), self.docs_smv.clone()));
        ps.push((String::from_str("smb"), self.gen_smb()));
        ps.push((String::from_str("includes_info_params"), String::from_str("true")));
        ps.push((String::from_str("cros_files"), String::from_str("false")));
        ps.push((String::from_str("tab"), String::from_str("t.0")));
        proof {
            assert(kv_view(ps@) =~= save_params(*self));
        }
        ps
    }

    /// Builds the save request of one insert command. On a closed session
    /// the used-after-close error comes back instead and nothing is to be
    /// sent.
    pub fn insert_request(&self, text: &Vec<char>, position: usize) -> (r: Result<
        RequestPlan,
        DocError,
    >)
        ensures
            self.closed ==> r == Err::<RequestPlan, DocError>(DocError::ClosedDocUsage),
            !self.closed ==> r is Ok && ({
                let plan = r.unwrap();
                &&& plan.post
                &&& plan.path@ == "save"@
                &&& kv_view(plan.params@) == save_params(*self)
                &&& plan.body is Some
                &&& plan.body.unwrap()@ == save_body(
                    self.rev as int,
                    insert_bundle(
                        position as int,
                        text@,
                        self.session_id@,
                        self.push_req_count as int,
                    ),
                )
            }),
    {
        if self.closed {
            return Err(DocError::ClosedDocUsage);
        }
        let mut bundle: Vec<char> = Vec::new();
        append_lit(&mut bundle, "[{\"commands\":[{\"ty\":\"is\",\"ibi\":");
        let pos_chars = usize_to_chars(position);
        append_chars(&mut bundle, &pos_chars);
        append_lit(&mut bundle, ",\"s\":\"");
        append_chars(&mut bundle, text);
        append_lit(&mut bundle, "\"}],\"sid\":\"");
        let sid_chars = str_to_chars(self.session_id.as_str());
        append_chars(&mut bundle, &sid_chars);
        append_lit(&mut bundle, "\",\"reqId\":");
        let req_chars = usize_to_chars(self.push_req_count);
        append_chars(&mut bundle, &req_chars);
        append_lit(&mut bundle, "}]");
        Ok(self.save_plan(&bundle))
    }

    /// Builds the save request of one delete command. On a closed session
    /// the used-after-close error comes back instead.
    pub fn delete_request(&self, start_pos: usize, end_pos: usize) -> (r: Result<
        RequestPlan,
        DocError,
    >)
        ensures
            self.closed ==> r == Err::<RequestPlan, DocError>(DocError::ClosedDocUsage),
            !self.closed ==> r is Ok && ({
                let plan = r.unwrap();
                &&& plan.post
                &&& plan.path@ == "save"@
                &&& kv_view(plan.params@) == save_params(*self)
                &&& plan.body is Some
                &&& plan.body.unwrap()@ == save_body(
                    self.rev as int,
                    delete_bundle(
                        start_pos as int,
                        end_pos as int,
                        self.session_id@,
                        self.push_req_count as int,
                    ),
                )
            }),
    {
        if self.closed {
            return Err(DocError::ClosedDocUsage);
        }
        let mut bundle: Vec<char> = Vec::new();
        append_lit(&mut bundle, "[{\"commands\":[{\"ty\":\"ds\",\"si\":");
        let start_chars = usize_to_chars(start_pos);
        append_chars(&mut bundle, &start_chars);
        append_lit(&mut bundle, ",\"ei\":");
        let end_chars = usize_to_chars(end_pos);
        append_chars(&mut bundle, &end_chars);
        append_lit(&mut bundle, "}],\"sid\":\"");
        let sid_chars = str_to_chars(self.session_id.as_str());
        append_chars(&mut bundle, &sid_chars);
        append_lit(&mut bundle, "\",\"reqId\":");
        let req_chars = usize_to_chars(self.push_req_count);
        append_chars(&mut bundle, &req_chars);
        append_lit(&mut bundle, "}]");
        Ok(self.save_plan(&bundle))
    }

    /// Wraps a serialized bundle into the save request: percent-encodes it
    /// and joins it with the current revision into the form body.
    fn save_plan(&self, bundle: &Vec<char>) -> (plan: RequestPlan)
        ensures
            plan.post,
            plan.path@ == "save"@,
            kv_view(plan.params@) == save_params(*self),
            plan.body is Some,
            plan.body.unwrap()@ == save_body(self.rev as int, bundle@),
    {
        let encoded = percent_encode_chars(bundle);
        let rev_chars = usize_to_chars(self.rev);
        let mut pairs: Vec<(Vec<char>, Vec<char>)> = Vec::new();
        pairs.push((str_to_chars("rev"), rev_chars));
        pairs.push((str_to_chars("bundles"), encoded));
        let body = build_req_body(&pairs);
        proof {
            reveal_strlit("rev");
            reveal_strlit("bundles");
            reveal_strlit("rev=");
            reveal_strlit("&bundles=");
            let pv = pairs_view(pairs@);
            assert(pv.len() == 2);
            assert(pv[0] == ("rev"@, dec_str(self.rev as int)));
            assert(pv[1] == ("bundles"@, percent_encoded(bundle@)));
            assert(pv.drop_last() =~= seq![pv[0]]);
            assert(join_params(seq![pv[0]]) == pv[0].0 + seq!['='] + pv[0].1);
            assert(join_params(pv) == join_params(seq![pv[0]]) + seq!['&'] + pv[1].0 + seq!['=']
                + pv[1].1);
            assert("rev"@ + seq!['='] =~= "rev="@);
            assert(seq!['&'] + "bundles"@ + seq!['='] =~= "&bundles="@);
            assert(body@ =~= save_body(self.rev as int, bundle@));
        }
        RequestPlan {
            post: true,
            path: String::from_str("save"),
            params: self.save_query(),
            body: Some(chars_to_string(&body)),
        }
    }

    /// After the save endpoint accepted a local insert: the revision and the
    /// push counter advance by one, then the mirror is updated. A position
    /// past `len + 1` leaves the mirror untouched and reports that the local
    /// cache has diverged from the server.
    pub fn apply_insert(&mut self, text: &Vec<char>, position: usize) -> (r: Result<(), DocError>)
        requires
            1 <= position,
            old(self).rev < usize::MAX,
            old(self).push_req_count < usize::MAX,
        ensures
            same_identity(*old(self), *final(self)),
            final(self).rev == old(self).rev + 1,
            final(self).push_req_count == old(self).push_req_count + 1,
            final(self).event_req_count == old(self).event_req_count,
            position <= old(self).content_cache@.len() + 1 ==> r is Ok && final(self).content_cache@ == insert_chars(old(self).content_cache@, position as int, text@),
            position > old(self).content_cache@.len() + 1 ==> r == Err::<(), DocError>(
                DocError::BrokenCache,
            ) && final(self).content_cache@ == old(self).content_cache@,
    {
        self.push_req_count = self.push_req_count + 1;
        self.rev = self.rev + 1;
        if position - 1 > self.content_cache.len() {
            return Err(DocError::BrokenCache);
        }
        splice_insert(&mut self.content_cache, position, text);
        Ok(())
    }

    /// After the save endpoint accepted a local delete: the revision and the
    /// push counter advance by one and the inclusive range `[start, end]`
    /// leaves the mirror, offsets past the end clamping to it.
    pub fn apply_delete(&mut self, start_pos: usize, end_pos: usize) -> (r: Result<(), DocError>)
        requires
            1 <= start_pos,
            start_pos - 1 <= end_pos,
            old(self).rev < usize::MAX,
            old(self).push_req_count < usize::MAX,
        ensures
            same_identity(*old(self), *final(self)),
            final(self).rev == old(self).rev + 1,
            final(self).push_req_count == old(self).push_req_count + 1,
            final(self).event_req_count == old(self).event_req_count,
            r is Ok,
            final(self).content_cache@ == delete_chars(
                old(self).content_cache@,
                start_pos as int,
                end_pos as int,
            ),
    {
        self.push_req_count = self.push_req_count + 1;
        self.rev = self.rev + 1;
        splice_delete(&mut self.content_cache, start_pos, end_pos);
        Ok(())
    }

    /// Gate for the long-poll path: a closed session fails fast with the
    /// used-after-close error and nothing is to be sent.
    pub fn poll_precheck(&self) -> (r: Result<(), DocError>)
        ensures
            self.closed ==> r == Err::<(), DocError>(DocError::ClosedDocUsage),
            !self.closed ==> r is Ok,
    {
        if self.closed {
            Err(DocError::ClosedDocUsage)
        } else {
            Ok(())
        }
    }

    /// True once the bind handshake has supplied the binding identifier.
    pub fn is_bound(&self) -> (r: bool)
        ensures
            r == (self.big_sid is Some),
    {
        self.big_sid.is_some()
    }

    /// Builds the one-time bind handshake request; `zx` is the nonce to
    /// send.
    pub fn bind_request(&self, zx: &String) -> (plan: RequestPlan)
        ensures
            plan.post,
            plan.path@ == "bind"@,
            kv_view(plan.params@) == bind_params(*self, zx@),
            plan.body is Some,
            plan.body.unwrap()@ == "count=0"@,
    {
        let mut ps: Vec<(String, String)> = Vec::new();
        ps.push((String::from_str("id"), self.doc_id.clone()));
        ps.push((String::from_str("sid"), self.session_id.clone()));
        ps.push((String::from_str("includes_info_params"), String::from_str("true")));
        ps.push((String::from_str("cros_files"), String::from_str("false")));
        ps.push((String::from_str("VER"), String::from_str("8")));
        ps.push((String::from_str("tab"), String::from_str("t.0")));
        ps.push((String::from_str("lsq"), String::from_str("-1")));
        ps.push((String::from_str("u"), self.user_id.clone()));
        ps.push((String::from_str("vc"), String::from_str("1")));
        ps.push((String::from_str("c"), String::from_str("1")));
        ps.push((String::from_str("w"), String::from_str("1")));
        ps.push((String::from_str("flr"), String::from_str("0")));
        ps.push((String::from_str("gsi"), String::from_str("")));
        ps.push((String::from_str("smv"), self.docs_smv.clone()));
        ps.push((String::from_str("smb"), self.gen_smb()));
        ps.push((String::from_str("cimpl"), String::from_str("0")));
        ps.push((String::from_str("t"), String::from_str("1")));
        ps.push((String::from_str("zx"), zx.clone()));
        proof {
            assert(kv_view(ps@) =~= bind_params(*self, zx@));
        }
        RequestPlan {
            post: true,
            path: String::from_str("bind"),
            params: ps,
            body: Some(String::from_str("count=0")),
        }
    }

    /// Stores the binding identifier scraped from the bind response; a
    /// response without the marker is a parse failure and changes nothing.
    pub fn apply_bind_response(&mut self, body: &Vec<char>) -> (r: Result<(), DocError>)
        ensures
            ({
                let e = crate::wire::extract_between(body@, 0, "\"c\",\""@, "\""@);
                &&& e is None ==> r == Err::<(), DocError>(DocError::ParseError) && same_session(
                    *old(self),
                    *final(self),
                )
                &&& e is Some ==> r is Ok && final(self).big_sid is Some && final(self).big_sid.unwrap()@ == e.unwrap() && final(self).session_id == old(self).session_id
                    && final(self).doc_id == old(self).doc_id && final(self).docs_smv == old(self).docs_smv && final(self).user_id == old(self).user_id && final(self).closed == old(self).closed && final(self).content_cache@ == old(self).content_cache@ && final(self).push_req_count == old(self).push_req_count && final(self).event_req_count == old(self).event_req_count && final(self).rev == old(self).rev
            }),
    {
        let m_a = str_to_chars("\"c\",\"");
        let m_b = str_to_chars("\"");
        match crate::wire::find_substring_between(body, 0, &m_a, &m_b) {
            None => Err(DocError::ParseError),
            Some(big) => {
                self.big_sid = Some(chars_to_string(&big));
                Ok(())
            },
        }
    }

    /// Builds one long-poll request; `now` is the wall-clock milliseconds to
    /// echo and `zx` the nonce. The binding identifier must already exist.
    pub fn poll_request(&self, now: usize, zx: &String) -> (plan: RequestPlan)
        requires
            self.big_sid is Some,
        ensures
            !plan.post,
            plan.path@ == "bind"@,
            kv_view(plan.params@) == poll_params(*self, now as int, self.big_sid.unwrap()@, zx@),
            plan.body is None,
    {
        let big = match &self.big_sid {
            Some(b) => b.clone(),
            None => {
                proof {
                    assert(false);
                }
                String::new()
            },
        };
        let mut ps: Vec<(String, String)> = Vec::new();
        ps.push((String::from_str("id"), self.doc_id.clone()));
        ps.push((String::from_str("sid"), self.session_id.clone()));
        ps.push((String::from_str("includes_info_params"), String::from_str("true")));
        ps.push((String::from_str("cros_files"), String::from_str("false")));
        ps.push((String::from_str("VER"), String::from_str("8")));
        ps.push((String::from_str("tab"), String::from_str("t.0")));
        let now_chars = usize_to_chars(now);
        ps.push((String::from_str("isq"), chars_to_string(&now_chars)));
        ps.push((String::from_str("u"), self.user_id.clone()));
        ps.push((String::from_str("vc"), String::from_str("1")));
        ps.push((String::from_str("c"), String::from_str("1")));
        ps.push((String::from_str("w"), String::from_str("1")));
        ps.push((String::from_str("flr"), String::from_str("0")));
        ps.push((String::from_str("gsi"), String::from_str("")));
        ps.push((String::from_str("smv"), self.docs_smv.clone()));
        ps.push((String::from_str("smb"), self.gen_smb()));
        ps.push((String::from_str("cimpl"), String::from_str("0")));
        ps.push((String::from_str("RID"), String::from_str("rpc")));
        ps.push((String::from_str("SID"), big));
        ps.push((String::from_str("CI"), String::from_str("1")));
        ps.push((String::from_str("TYPE"), String::from_str("xmlhttp")));
        ps.push((String::from_str("t"), String::from_str("1")));
        let aid_chars = usize_to_chars(self.event_req_count);
        ps.push((String::from_str("AID"), chars_to_string(&aid_chars)));
        ps.push((String::from_str("zx"), zx.clone()));
        proof {
            assert(kv_view(ps@) =~= poll_params(*self, now as int, self.big_sid.unwrap()@, zx@));
        }
        RequestPlan { post: false, path: String::from_str("bind"), params: ps, body: None }
    }

    /// Builds the terminating leave request. On a closed session the
    /// used-after-close error comes back instead.
    pub fn leave_request(&self) -> (r: Result<RequestPlan, DocError>)
        ensures
            self.closed ==> r == Err::<RequestPlan, DocError>(DocError::ClosedDocUsage),
            !self.closed ==> r is Ok && ({
                let plan = r.unwrap();
                &&& !plan.post
                &&& plan.path@ == "leave"@
                &&& kv_view(plan.params@) == leave_params(*self)
                &&& plan.body is None
            }),
    {
        if self.closed {
            return Err(DocError::ClosedDocUsage);
        }
        let mut ps: Vec<(String, String)> = Vec::new();
        ps.push((String::from_str("id"), self.doc_id.clone()));
        ps.push((String::from_str("sid"), self.session_id.clone()));
        ps.push((String::from_str("vc"), String::from_str("1")));
        ps.push((String::from_str("c"), String::from_str("1")));
        ps.push((String::from_str("w"), String::from_str("1")));
        ps.push((String::from_str("flr"), String::from_str("0")));
        ps.push((String::from_str("smv"), self.docs_smv.clone()));
        ps.push((String::from_str("smb"), self.gen_smb()));
        proof {
            assert(kv_view(ps@) =~= leave_params(*self));
        }
        Ok(RequestPlan { post: false, path: String::from_str("leave"), params: ps, body: None })
    }

    /// After the leave request went out, the session is closed for good;
    /// every further operation fails fast.
    pub fn apply_close(&mut self)
        ensures
            final(self).closed,
            final(self).session_id == old(self).session_id,
            final(self).doc_id == old(self).doc_id,
            final(self).docs_smv == old(self).docs_smv,
            final(self).user_id == old(self).user_id,
            final(self).big_sid == old(self).big_sid,
            final(self).content_cache@ == old(self).content_cache@,
            final(self).push_req_count == old(self).push_req_count,
            final(self).event_req_count == old(self).event_req_count,
            final(self).rev == old(self).rev,
    {
        self.closed = true;
    }

    /// The current content mirror.
    pub fn get_content(&self) -> (r: &Vec<char>)
        ensures
            r@ == self.content_cache@,
    {
        &self.content_cache
    }
}

} // verus!
