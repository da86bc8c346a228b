use linkcheck::urls::{normalize, parse_base_url, validate_and_make_full_url, CrawlUrl};

fn base(s: &str) -> CrawlUrl {
    parse_base_url(s).expect("base URL must parse")
}

#[test]
fn scheme_filter_rejects_javascript() {
    let b = base("http://example.com/");
    assert!(validate_and_make_full_url("javascript:void(0)", &b).is_none());
    let other = base("https://other.org/deep/path?x=1");
    assert!(validate_and_make_full_url("javascript:void(0)", &other).is_none());
}

#[test]
fn scheme_filter_rejects_mailto() {
    let b = base("http://example.com/");
    assert!(validate_and_make_full_url("mailto:a@b.com", &b).is_none());
}

#[test]
fn scheme_filter_keeps_http_and_https() {
    let b = base("http://example.com/");
    let u = validate_and_make_full_url("http://example.com/x", &b).unwrap();
    assert_eq!(u.scheme, "http");
    let u = validate_and_make_full_url("https://example.com/x", &b).unwrap();
    assert_eq!(u.scheme, "https");
}

#[test]
fn relative_resolution_against_directory_base() {
    let b = base("http://example.com/dir/");
    let u = validate_and_make_full_url("/p?q=1", &b).unwrap();
    assert_eq!(u.serialization, "http://example.com/p?q=1");
}

#[test]
fn relative_resolution_keeps_directory() {
    let b = base("http://example.com/dir/");
    let u = validate_and_make_full_url("page.html", &b).unwrap();
    assert_eq!(u.serialization, "http://example.com/dir/page.html");
}

#[test]
fn absolute_candidate_stands_as_parsed() {
    let b = base("http://example.com/");
    let u = validate_and_make_full_url("http://other.com/a/b", &b).unwrap();
    assert_eq!(u.serialization, "http://other.com/a/b");
    assert_eq!(u.host.as_deref(), Some("other.com"));
}

#[test]
fn unresolvable_candidate_is_rejected() {
    let b = base("http://example.com/");
    assert!(validate_and_make_full_url("http://", &b).is_none());
}

#[test]
fn fragment_equivalence_of_normalized_keys() {
    let plain = base("http://x/a");
    let foo = base("http://x/a#foo");
    let bar = base("http://x/a#bar");
    assert_eq!(normalize(&plain), "http://x/a");
    assert_eq!(normalize(&foo), "http://x/a");
    assert_eq!(normalize(&bar), "http://x/a");
    assert!(foo.has_fragment);
    assert!(bar.has_fragment);
    assert!(!plain.has_fragment);
}

#[test]
fn base_url_parse_failure_is_fatal_input() {
    assert!(parse_base_url("not a url").is_none());
    assert!(parse_base_url("/relative/only").is_none());
}

#[test]
fn parsed_parts_are_filled() {
    let u = base("https://example.com/data.csv#row=4");
    assert_eq!(u.scheme, "https");
    assert_eq!(u.host.as_deref(), Some("example.com"));
    assert_eq!(u.serialization, "https://example.com/data.csv#row=4");
    assert_eq!(u.key, "https://example.com/data.csv");
    assert!(u.has_fragment);
}
