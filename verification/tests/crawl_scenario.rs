use linkcheck::engine::{CrawlAction, CrawlEvent, Engine};
use linkcheck::extract::process_body;
use linkcheck::pipeline::{head_response, plan_response, BodyPlan, CrawlOutcome};
use linkcheck::urls::{parse_base_url, CrawlUrl};

const ROOT_PAGE: &[u8] = b"<html><body>\
<a href=\"/about\">about</a>\
<a href=\"/about#x\">anchor</a>\
<a href=\"http://external.com\">elsewhere</a>\
</body></html>";

const ABOUT_PAGE: &[u8] = b"<html><body>no links here</body></html>";

/// The fake site: every URL answers 200 text/html; only internal pages are
/// ever parsed, so external bodies are never requested.
fn serve(url: &CrawlUrl) -> (u16, Option<Vec<u8>>, Vec<u8>) {
    let body = match url.serialization.as_str() {
        "http://example.com/" => ROOT_PAGE.to_vec(),
        "http://example.com/about" => ABOUT_PAGE.to_vec(),
        _ => Vec::new(),
    };
    (200, Some(b"text/html".to_vec()), body)
}

#[test]
fn end_to_end_two_pages_and_an_external_link() {
    let base = parse_base_url("http://example.com/").unwrap();
    let mut engine = Engine::new();
    let mut pending: Vec<CrawlUrl> = Vec::new();
    let mut processed: Vec<String> = Vec::new();
    let mut parsed: Vec<String> = Vec::new();

    if let CrawlAction::Dispatch(u) = engine.step(CrawlEvent::Submitted(base.duplicate())) {
        pending.push(u);
    } else {
        panic!("the seed must dispatch");
    }

    while let Some(url) = pending.pop() {
        let (status, content_type, body) = serve(&url);
        let resp = head_response(status, content_type);
        match plan_response(&resp, &url, &base) {
            BodyPlan::FetchBody => {
                let (outcome, links) = process_body(&body, &base);
                assert!(matches!(outcome, CrawlOutcome::Reachable(Some(_))));
                parsed.push(url.serialization.clone());
                for link in links {
                    if let CrawlAction::Dispatch(u) = engine.step(CrawlEvent::Submitted(link)) {
                        pending.push(u);
                    }
                }
            }
            BodyPlan::Done => {}
            other => panic!("unexpected plan in this scenario: {:?}", other),
        }
        processed.push(url.serialization.clone());
    }

    match engine.step(CrawlEvent::TimedOut) {
        CrawlAction::Finish(n) => assert_eq!(n, 3),
        _ => panic!("a timeout must finish the crawl"),
    }

    processed.sort();
    assert_eq!(
        processed,
        vec![
            "http://example.com/".to_string(),
            "http://example.com/about".to_string(),
            "http://external.com/".to_string(),
        ]
    );

    // The external URL was fetched and status-checked but never parsed.
    parsed.sort();
    assert_eq!(
        parsed,
        vec![
            "http://example.com/".to_string(),
            "http://example.com/about".to_string(),
        ]
    );
}
