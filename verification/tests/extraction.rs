use linkcheck::extract::{extract_and_resolve, extract_candidates, process_body};
use linkcheck::pipeline::CrawlOutcome;
use linkcheck::urls::parse_base_url;

const PAGE: &[u8] = b"<html><head>\
<link href=\"/style.css\" rel=\"stylesheet\">\
<script src=\"/app.js\"></script>\
</head><body>\
<a href=\"/about\">about</a>\
<a href=\"/about#x\">about anchor</a>\
<a href=\"#top\">fragment only</a>\
<a href=\"http://external.com\">elsewhere</a>\
<a href=\"mailto:a@b.com\">mail</a>\
<a>no href</a>\
<img src=\"/logo.png\">\
</body></html>";

#[test]
fn candidates_come_from_the_fixed_sources_in_order() {
    let cands = extract_candidates(PAGE).expect("the page parses");
    assert_eq!(
        cands,
        vec![
            "/about".to_string(),
            "http://external.com".to_string(),
            "mailto:a@b.com".to_string(),
            "/app.js".to_string(),
            "/logo.png".to_string(),
            "/style.css".to_string(),
        ]
    );
}

#[test]
fn fragment_bearing_candidates_are_dropped() {
    let cands = extract_candidates(PAGE).expect("the page parses");
    assert!(cands.iter().all(|c| !c.contains('#')));
}

#[test]
fn resolution_filters_and_absolutizes() {
    let base = parse_base_url("http://example.com/").unwrap();
    let urls = extract_and_resolve(PAGE, &base).expect("the page parses");
    let serials: Vec<&str> = urls.iter().map(|u| u.serialization.as_str()).collect();
    assert_eq!(
        serials,
        vec![
            "http://example.com/about",
            "http://external.com/",
            "http://example.com/app.js",
            "http://example.com/logo.png",
            "http://example.com/style.css",
        ]
    );
}

#[test]
fn processed_body_reports_its_size() {
    let base = parse_base_url("http://example.com/").unwrap();
    let body = PAGE.to_vec();
    let (outcome, links) = process_body(&body, &base);
    match outcome {
        CrawlOutcome::Reachable(Some(n)) => assert_eq!(n, PAGE.len()),
        _ => panic!("a parsed page is reachable with its body size"),
    }
    assert_eq!(links.len(), 5);
}

#[test]
fn page_without_links_yields_nothing() {
    let base = parse_base_url("http://example.com/").unwrap();
    let urls = extract_and_resolve(b"<html><body>plain</body></html>", &base).unwrap();
    assert!(urls.is_empty());
}
