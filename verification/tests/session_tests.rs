use gdoc_sync::error::DocError;
use gdoc_sync::events::PollOutcome;
use gdoc_sync::session::build_req_body;
use gdoc_sync::session::usize_to_chars;
use gdoc_sync::session::Session;

fn chars(s: &str) -> Vec<char> {
    s.chars().collect()
}

fn text(v: &Vec<char>) -> String {
    v.iter().collect()
}

fn open_session(content: &str) -> Session {
    Session {
        session_id: String::from("sid1"),
        doc_id: String::from("doc1"),
        docs_smv: String::from("77"),
        user_id: String::from("user1"),
        big_sid: None,
        content_cache: chars(content),
        closed: false,
        push_req_count: 0,
        event_req_count: 0,
        rev: 5,
    }
}

#[test]
fn insert_then_delete_scenario() {
    // mirror "abc": insert("X", 1) gives "Xabc", delete(1, 2) removes
    // 'X' and 'a', leaving "bc".
    let mut s = open_session("abc");
    s.apply_insert(&chars("X"), 1).unwrap();
    assert_eq!(text(s.get_content()), "Xabc");
    s.apply_delete(1, 2).unwrap();
    assert_eq!(text(s.get_content()), "bc");
}

#[test]
fn insert_positions_across_the_buffer() {
    let mut s = open_session("aéc");
    s.apply_insert(&chars("ß"), 2).unwrap();
    assert_eq!(text(s.get_content()), "aßéc");
    let mut t = open_session("ab");
    t.apply_insert(&chars("Z"), 3).unwrap();
    assert_eq!(text(t.get_content()), "abZ");
}

#[test]
fn delete_is_inclusive_on_both_ends() {
    let mut s = open_session("abcdef");
    s.apply_delete(2, 4).unwrap();
    assert_eq!(text(s.get_content()), "aef");
}

#[test]
fn counters_advance_by_one_per_command() {
    let mut s = open_session("abc");
    s.apply_insert(&chars("X"), 1).unwrap();
    assert_eq!(s.rev, 6);
    assert_eq!(s.push_req_count, 1);
    s.apply_delete(1, 1).unwrap();
    assert_eq!(s.rev, 7);
    assert_eq!(s.push_req_count, 2);
}

#[test]
fn out_of_range_insert_reports_broken_cache() {
    let mut s = open_session("abc");
    let r = s.apply_insert(&chars("X"), 5);
    assert!(matches!(r, Err(DocError::BrokenCache)));
    // the mirror stays in its pre-insert state and can still be read
    assert_eq!(text(s.get_content()), "abc");
    // the command was already transmitted, so the counters advanced
    assert_eq!(s.rev, 6);
    assert_eq!(s.push_req_count, 1);
}

#[test]
fn closed_session_rejects_every_operation() {
    let mut s = open_session("abc");
    s.apply_close();
    assert!(matches!(s.insert_request(&chars("X"), 1), Err(DocError::ClosedDocUsage)));
    assert!(matches!(s.delete_request(1, 1), Err(DocError::ClosedDocUsage)));
    assert!(matches!(s.poll_precheck(), Err(DocError::ClosedDocUsage)));
    assert!(matches!(s.leave_request(), Err(DocError::ClosedDocUsage)));
    assert_eq!(text(s.get_content()), "abc");
}

#[test]
fn poll_timeout_changes_nothing() {
    let mut s = open_session("abc");
    s.rev = 9;
    s.event_req_count = 4;
    let r = s.apply_poll_response(PollOutcome::Timeout);
    assert!(r.is_ok());
    assert_eq!(s.rev, 9);
    assert_eq!(s.event_req_count, 4);
    assert_eq!(text(s.get_content()), "abc");
}

#[test]
fn short_noop_frame_changes_nothing() {
    let mut s = open_session("abc");
    s.event_req_count = 4;
    let r = s.apply_poll_response(PollOutcome::Body(chars("[\"noop\"]")));
    assert!(r.is_ok());
    assert_eq!(s.event_req_count, 4);
    assert_eq!(text(s.get_content()), "abc");
}

#[test]
fn event_frame_advances_acknowledgment_cursor() {
    let mut s = open_session("");
    let r = s.parse_event_response(&chars("[[4,[\"x\"]]]"));
    assert!(r.is_ok());
    assert_eq!(s.event_req_count, 5);
}

#[test]
fn event_frame_applies_remote_insert() {
    let mut s = open_session("");
    let frame = chars("[[4,[{\"ty\":\"is\",\"ibi\":1,\"s\":\"Hi\"}]]]");
    s.parse_event_response(&frame).unwrap();
    assert_eq!(text(s.get_content()), "Hi");
    assert_eq!(s.event_req_count, 5);
}

#[test]
fn event_frame_applies_remote_delete() {
    let mut s = open_session("abcd");
    let frame = chars("[[6,[{\"ty\":\"ds\",\"si\":2,\"ei\":3}]]]");
    s.parse_event_response(&frame).unwrap();
    assert_eq!(text(s.get_content()), "ad");
}

#[test]
fn event_frame_updates_revision_last_occurrence_wins() {
    let mut s = open_session("");
    let frame = chars("[[2,[{\"cem\":{\"as\":[10,42]}},{\"cem\":{\"as\":[10,33]}}]]]");
    s.parse_event_response(&frame).unwrap();
    assert_eq!(s.rev, 33);
}

#[test]
fn event_frame_remote_insert_out_of_range_fails() {
    let mut s = open_session("ab");
    let frame = chars("[[4,[{\"ty\":\"is\",\"ibi\":9,\"s\":\"Q\"}]]]");
    let r = s.parse_event_response(&frame);
    assert!(matches!(r, Err(DocError::ParseError)));
    // the cursor still advanced before the failure
    assert_eq!(s.event_req_count, 5);
    assert_eq!(text(s.get_content()), "ab");
}

#[test]
fn event_frame_unknown_code_is_ignored() {
    let mut s = open_session("ab");
    let frame = chars("[[4,[{\"ty\":\"zz\",\"ibi\":1}]]]");
    s.parse_event_response(&frame).unwrap();
    assert_eq!(text(s.get_content()), "ab");
}

#[test]
fn insert_request_body_is_percent_encoded() {
    let s = open_session("abc");
    let plan = s.insert_request(&chars("Hi"), 1).unwrap();
    assert!(plan.post);
    assert_eq!(plan.path, "save");
    let body = plan.body.unwrap();
    assert!(body.starts_with("rev=5&bundles="));
    // the encoder must have rewritten the bundle, not handed it back
    assert!(body.contains("%5B%7B%22commands%22"));
    assert!(body.contains("Hi"));
    assert!(!body.contains("[{\"commands\""));
}

#[test]
fn delete_request_carries_range_and_request_id() {
    let mut s = open_session("abc");
    s.push_req_count = 3;
    let plan = s.delete_request(2, 4).unwrap();
    let body = plan.body.unwrap();
    assert!(body.starts_with("rev=5&bundles="));
    assert!(body.contains("%22si%22%3A2"));
    assert!(body.contains("%22ei%22%3A4"));
    assert!(body.contains("%22reqId%22%3A3"));
}

#[test]
fn save_query_has_fixed_parameter_set() {
    let s = open_session("");
    let plan = s.insert_request(&chars("x"), 1).unwrap();
    let ps = plan.params;
    assert_eq!(ps[0], (String::from("id"), String::from("doc1")));
    assert_eq!(ps[1], (String::from("sid"), String::from("sid1")));
    assert_eq!(ps[7], (String::from("smb"), String::from("[77, oAM=]")));
    assert_eq!(ps.len(), 11);
}

#[test]
fn bind_then_poll_flow() {
    let mut s = open_session("");
    assert!(!s.is_bound());
    let zx = s.gen_zx();
    assert_eq!(zx.len(), 12);
    assert!(zx.chars().all(|c| ('a'..='y').contains(&c)));
    let plan = s.bind_request(&zx);
    assert!(plan.post);
    assert_eq!(plan.path, "bind");
    assert_eq!(plan.body.unwrap(), "count=0");
    let resp = chars("junk[\"c\",\"BIGSID99\"]junk");
    s.apply_bind_response(&resp).unwrap();
    assert!(s.is_bound());
    assert_eq!(s.big_sid.as_deref(), Some("BIGSID99"));
    let poll = s.poll_request(1234, &zx);
    assert!(!poll.post);
    assert_eq!(poll.path, "bind");
    let sid_pair = poll.params.iter().find(|p| p.0 == "SID").unwrap();
    assert_eq!(sid_pair.1, "BIGSID99");
    let aid_pair = poll.params.iter().find(|p| p.0 == "AID").unwrap();
    assert_eq!(aid_pair.1, "0");
}

#[test]
fn bind_response_without_marker_fails() {
    let mut s = open_session("");
    let r = s.apply_bind_response(&chars("nothing here"));
    assert!(matches!(r, Err(DocError::ParseError)));
    assert!(!s.is_bound());
}

#[test]
fn bootstrap_extracts_identifiers_and_content() {
    let mut page_text = String::from("junk _createKixApplication('SESS', more\n");
    page_text.push_str("'docid': 'DOC9' x\n");
    page_text.push_str("\"docs-smv\":88, y\n");
    page_text.push_str("DOCS_warmStartDocumentLoader.startLoad( 41. z\n");
    page_text.push_str("'oui': 'USER7' w\n");
    page_text.push_str("DOCS_modelChunk = {\"chunk\":[{\"ty\":\"is\",\"ibi\":1,\"s\":\"He\\nllo\"}, tail");
    let page = chars(&page_text);
    let s = Session::bootstrap(&page).unwrap();
    assert_eq!(s.session_id, "SESS");
    assert_eq!(s.doc_id, "DOC9");
    assert_eq!(s.docs_smv, "88");
    assert_eq!(s.user_id, "USER7");
    assert_eq!(s.rev, 41);
    assert!(!s.closed);
    assert!(s.big_sid.is_none());
    assert_eq!(text(s.get_content()), "He\nllo");
}

#[test]
fn bootstrap_without_marker_is_parse_failure() {
    let page = chars("no markers at all");
    assert!(matches!(Session::bootstrap(&page), Err(DocError::ParseError)));
}

#[test]
fn bootstrap_without_content_starts_empty() {
    let mut page_text = String::from("_createKixApplication('S', x 'docid': 'D' x \"docs-smv\":1, x ");
    page_text.push_str("DOCS_warmStartDocumentLoader.startLoad( 7. x 'oui': 'U' x");
    let page = chars(&page_text);
    let s = Session::bootstrap(&page).unwrap();
    assert_eq!(text(s.get_content()), "");
    assert_eq!(s.rev, 7);
}

#[test]
fn decimal_rendering_and_body_join() {
    let v = usize_to_chars(90210);
    assert_eq!(text(&v), "90210");
    let zero = usize_to_chars(0);
    assert_eq!(text(&zero), "0");
    let pairs = vec![(chars("a"), chars("b")), (chars("c"), chars("d"))];
    assert_eq!(text(&build_req_body(&pairs)), "a=b&c=d");
}

#[test]
fn frame_with_unscannable_id_fails_without_side_effect() {
    let mut s = open_session("ab");
    s.event_req_count = 3;
    let r = s.parse_event_response(&chars("[["));
    assert!(matches!(r, Err(DocError::ParseError)));
    assert_eq!(s.event_req_count, 3);
    assert_eq!(text(s.get_content()), "ab");
}

#[test]
fn frame_with_malformed_revision_marker_fails_after_cursor_update() {
    let mut s = open_session("ab");
    let frame = chars("[[4,[{\"cem\":{\"as\":[10,junk]}}]]]");
    let r = s.parse_event_response(&frame);
    assert!(matches!(r, Err(DocError::ParseError)));
    // the acknowledgment cursor always advances first
    assert_eq!(s.event_req_count, 5);
    assert_eq!(s.rev, 5);
    assert_eq!(text(s.get_content()), "ab");
}
