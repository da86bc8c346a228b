use linkcheck::pipeline::{
    find_bytes, get_response, head_response, is_html_content_type, outcome_without_body,
    plan_response, BodyPlan, CrawlError, CrawlOutcome,
};
use linkcheck::urls::parse_base_url;

fn html_ct() -> Option<Vec<u8>> {
    Some(b"text/html; charset=utf-8".to_vec())
}

#[test]
fn find_bytes_matches_substrings() {
    assert!(find_bytes(b"text/html", b"text/html"));
    assert!(find_bytes(b"application/xhtml", b"html"));
    assert!(!find_bytes(b"application/pdf", b"text/html"));
    assert!(find_bytes(b"abc", b""));
    assert!(!find_bytes(b"", b"a"));
}

#[test]
fn content_type_gates_on_text_html() {
    assert!(is_html_content_type(&html_ct()));
    assert!(is_html_content_type(&Some(b"\"text/html\"".to_vec())));
    assert!(!is_html_content_type(&Some(b"application/pdf".to_vec())));
    assert!(!is_html_content_type(&None));
}

#[test]
fn non_success_status_is_broken() {
    let base = parse_base_url("http://example.com/").unwrap();
    let url = parse_base_url("http://example.com/missing").unwrap();
    let resp = head_response(404, html_ct());
    assert_eq!(plan_response(&resp, &url, &base), BodyPlan::Broken);
    match outcome_without_body(&resp) {
        CrawlOutcome::Broken(CrawlError::HttpStatus(404)) => {}
        _ => panic!("a 404 must be reported broken with its status"),
    }
}

#[test]
fn external_html_is_checked_but_never_parsed() {
    let base = parse_base_url("http://example.com/").unwrap();
    let url = parse_base_url("http://other.com/page").unwrap();
    let head = head_response(200, html_ct());
    assert_eq!(plan_response(&head, &url, &base), BodyPlan::Done);
    let get = get_response(200, html_ct());
    assert_eq!(plan_response(&get, &url, &base), BodyPlan::Done);
    match outcome_without_body(&head) {
        CrawlOutcome::Reachable(None) => {}
        _ => panic!("a reachable external URL is reported without a size"),
    }
}

#[test]
fn internal_non_html_is_not_parsed() {
    let base = parse_base_url("http://example.com/").unwrap();
    let url = parse_base_url("http://example.com/doc.pdf").unwrap();
    let resp = head_response(200, Some(b"application/pdf".to_vec()));
    assert_eq!(plan_response(&resp, &url, &base), BodyPlan::Done);
    let resp = head_response(200, None);
    assert_eq!(plan_response(&resp, &url, &base), BodyPlan::Done);
}

#[test]
fn internal_html_after_head_needs_its_body() {
    let base = parse_base_url("http://example.com/").unwrap();
    let url = parse_base_url("http://example.com/page").unwrap();
    let resp = head_response(200, html_ct());
    assert_eq!(plan_response(&resp, &url, &base), BodyPlan::FetchBody);
}

#[test]
fn head_fallback_reuses_the_get_body() {
    // The HEAD request failed at the transport level; the fallback GET
    // answered, so its body is in hand and no second GET is planned.
    let base = parse_base_url("http://example.com/").unwrap();
    let url = parse_base_url("http://example.com/page").unwrap();
    let resp = get_response(200, html_ct());
    assert_eq!(plan_response(&resp, &url, &base), BodyPlan::ParseInHand);
}
