use vstd::prelude::*;
use crate::urls::{CrawlUrl, UrlModel};

verus! {

/// What the fetch step hands back for one request, shorn of the transport:
/// the HTTP status, the content-type header when present (as raw bytes),
/// and whether the body is already in hand (it is after a GET; a HEAD
/// response carries none).
pub struct ResponseInfo {
    pub status: u16,
    pub content_type: Option<Vec<u8>>,
    pub body_in_hand: bool,
}

/// The model of a response: status, optional content-type bytes, and
/// whether the body is in hand.
pub ghost struct ResponseModel {
    pub status: u16,
    pub content_type: Option<Seq<u8>>,
    pub body_in_hand: bool,
}

impl View for ResponseInfo {
    type V = ResponseModel;

    open spec fn view(&self) -> ResponseModel {
        ResponseModel {
            status: self.status,
            content_type: match self.content_type {
                Some(ct) => Some(ct@),
                None => None,
            },
            body_in_hand: self.body_in_hand,
        }
    }
}

/// Why one URL failed; the crawl itself never fails.
pub enum CrawlError {
    /// Transport failure on the HEAD request and on the GET fallback.
    Transport,
    /// A response arrived, but with a non-success status.
    HttpStatus(u16),
    /// The body of an internal HTML page could not be parsed.
    Parse,
    /// The body of an internal HTML page could not be read.
    BodyRead,
}

/// The outcome reported for one processed URL: reachable (with the body
/// size when the page was parsed), or broken, with the failure detail.
pub enum CrawlOutcome {
    Reachable(Option<usize>),
    Broken(CrawlError),
}

/// An HTTP status that counts as success: the 2xx class.
pub open spec fn is_success(status: u16) -> bool {
    200 <= status < 300
}

/// Does `needle` occur as a contiguous run inside `hay`?
pub open spec fn contains_bytes(hay: Seq<u8>, needle: Seq<u8>) -> bool {
    exists|i: int|
        0 <= i && i + needle.len() <= hay.len()
            && #[trigger] hay.subrange(i, i + needle.len()) == needle
}

/// The byte form of `text/html`, the marker that gates link extraction.
pub open spec fn text_html_marker() -> Seq<u8> {
    seq![116u8, 101u8, 120u8, 116u8, 47u8, 104u8, 116u8, 109u8, 108u8]
}

/// Is the response HTML? Yes exactly when a content-type arrived and its
/// bytes contain `text/html`.
pub open spec fn is_html_content(ct: Option<Seq<u8>>) -> bool {
    match ct {
        Some(bytes) => contains_bytes(bytes, text_html_marker()),
        None => false,
    }
}

/// Is the URL internal: does its host equal the base URL's host? Two
/// absent hosts count as equal, as comparing the parsed hosts would.
pub open spec fn same_host(u: UrlModel, base: UrlModel) -> bool {
    u.host == base.host
}

/// What to do with a URL once a response for it is in hand.
#[derive(PartialEq, Eq, Structural, Debug)]
pub enum BodyPlan {
    /// Non-success status: report the URL broken; nothing more.
    Broken,
    /// Success, but external or not HTML: reachable, never parsed.
    Done,
    /// Success, internal, HTML, body not in hand: one GET for the body.
    FetchBody,
    /// Success, internal, HTML, body in hand: parse that body; no new GET.
    ParseInHand,
}

/// The decision table of the per-URL pipeline, once a response is in hand:
/// a non-success status is broken; an external or non-HTML resource is
/// verified reachable and never parsed; an internal HTML page is parsed,
/// from the body in hand when there is one, else after one further GET.
pub open spec fn plan_for_response(resp: ResponseModel, u: UrlModel, base: UrlModel) -> BodyPlan {
    if !is_success(resp.status) {
        BodyPlan::Broken
    } else if !(same_host(u, base) && is_html_content(resp.content_type)) {
        BodyPlan::Done
    } else if resp.body_in_hand {
        BodyPlan::ParseInHand
    } else {
        BodyPlan::FetchBody
    }
}

/// Does `needle` match `hay` at offset `at`?
fn matches_at(hay: &[u8], needle: &[u8], at: usize) -> (r: bool)
    requires
        at + needle@.len() <= hay@.len(),
    ensures
        r == (hay@.subrange(at as int, at + needle@.len()) == needle@),
{
    let hay_len = hay.len();
    let mut j: usize = 0;
    while j < needle.len()
        invariant
            at + needle@.len() <= hay@.len(),
            hay_len == hay@.len(),
            j <= needle@.len(),
            forall|k: int| 0 <= k < j ==> hay@[at + k] == needle@[k],
        decreases needle@.len() - j,
    {
        if hay[at + j] != needle[j] {
            proof {
                assert(hay@.subrange(at as int, at + needle@.len())[j as int]
                    == hay@[at + j]);
            }
            return false;
        }
        j += 1;
    }
    proof {
        assert(hay@.subrange(at as int, at + needle@.len()) =~= needle@);
    }
    true
}

/// Substring search over bytes.
pub fn find_bytes(hay: &[u8], needle: &[u8]) -> (r: bool)
    ensures
        r == contains_bytes(hay@, needle@),
{
    if needle.len() > hay.len() {
        proof {
            assert(!contains_bytes(hay@, needle@));
        }
        return false;
    }
    if needle.len() == 0 {
        proof {
            assert(hay@.subrange(0, 0 + needle@.len() as int) =~= needle@);
        }
        return true;
    }
    let hlen = hay.len();
    let mut i: usize = 0;
    let last = hlen - needle.len();
    while i <= last
        invariant
            1 <= needle@.len() <= hay@.len(),
            hlen == hay@.len(),
            last == hay@.len() - needle@.len(),
            i <= last + 1,
            forall|p: int| 0 <= p < i
                ==> #[trigger] hay@.subrange(p, p + needle@.len()) != needle@,
        decreases last + 1 - i,
    {
        if matches_at(hay, needle, i) {
            return true;
        }
        i += 1;
    }
    false
}

/// Is this content-type header HTML: present and containing `text/html`?
pub fn is_html_content_type(ct: &Option<Vec<u8>>) -> (r: bool)
    ensures
        r == is_html_content(match *ct {
            Some(bytes) => Some(bytes@),
            None => None,
        }),
{
    match ct {
        Some(bytes) => {
            let marker: [u8; 9] = [116u8, 101u8, 120u8, 116u8, 47u8, 104u8, 116u8, 109u8, 108u8];
            proof {
                assert(marker@ =~= text_html_marker());
            }
            find_bytes(bytes.as_slice(), marker.as_slice())
        },
        None => false,
    }
}

/// Is the URL internal to the crawl: same host as the base URL?
pub fn is_internal(u: &CrawlUrl, base: &CrawlUrl) -> (r: bool)
    ensures
        r == same_host(u@, base@),
{
    match (&u.host, &base.host) {
        (Some(a), Some(b)) => *a == *b,
        (None, None) => true,
        _ => false,
    }
}

/// Is the status in the success class?
pub fn status_is_success(status: u16) -> (r: bool)
    ensures
        r == is_success(status),
{
    200 <= status && status < 300
}

/// The pipeline decision for a response in hand: exactly
/// `plan_for_response` on the models.
pub fn plan_response(resp: &ResponseInfo, u: &CrawlUrl, base: &CrawlUrl) -> (p: BodyPlan)
    ensures
        p == plan_for_response(resp@, u@, base@),
{
    if !status_is_success(resp.status) {
        BodyPlan::Broken
    } else if !(is_internal(u, base) && is_html_content_type(&resp.content_type)) {
        BodyPlan::Done
    } else if resp.body_in_hand {
        BodyPlan::ParseInHand
    } else {
        BodyPlan::FetchBody
    }
}

/// A response that answered the HEAD request: a HEAD response carries no
/// body, so none is in hand and an HTML page still needs its own GET.
pub fn head_response(status: u16, content_type: Option<Vec<u8>>) -> (r: ResponseInfo)
    ensures
        r@ == (ResponseModel {
            status,
            content_type: match content_type {
                Some(ct) => Some(ct@),
                None => None,
            },
            body_in_hand: false,
        }),
{
    ResponseInfo { status, content_type, body_in_hand: false }
}

/// A response that answered the GET issued after a HEAD transport failure:
/// its body arrived with it, so the body is in hand and no further GET is
/// needed.
pub fn get_response(status: u16, content_type: Option<Vec<u8>>) -> (r: ResponseInfo)
    ensures
        r@ == (ResponseModel {
            status,
            content_type: match content_type {
                Some(ct) => Some(ct@),
                None => None,
            },
            body_in_hand: true,
        }),
{
    ResponseInfo { status, content_type, body_in_hand: true }
}

/// The outcome for a URL whose pipeline ends without parsing a body:
/// broken, with the status as the detail, on a non-success response;
/// reachable, with no size to report, otherwise.
pub fn outcome_without_body(resp: &ResponseInfo) -> (o: CrawlOutcome)
    ensures
        !is_success(resp@.status) ==> o == CrawlOutcome::Broken(
            CrawlError::HttpStatus(resp@.status),
        ),
        is_success(resp@.status) ==> o == CrawlOutcome::Reachable(None::<usize>),
{
    if status_is_success(resp.status) {
        CrawlOutcome::Reachable(None)
    } else {
        CrawlOutcome::Broken(CrawlError::HttpStatus(resp.status))
    }
}

/// Internal/external law: a URL whose host differs from the base host is
/// never parsed for further links — whatever its status, content type or
/// body state, the plan is only ever `Broken` or `Done`.
pub proof fn lemma_external_never_parsed(resp: ResponseModel, u: UrlModel, base: UrlModel)
    requires
        u.host != base.host,
    ensures
        plan_for_response(resp, u, base) == BodyPlan::Broken
            || plan_for_response(resp, u, base) == BodyPlan::Done,
{
}

/// HEAD-fallback law: when the HEAD request failed at the transport level
/// and the fallback GET answered, its body is in hand, so a successful
/// internal HTML response is parsed from that body and no second GET is
/// ever planned; with any other successful response the URL is reachable.
pub proof fn lemma_head_fallback_uses_get_body(resp: ResponseModel, u: UrlModel, base: UrlModel)
    requires
        resp.body_in_hand,
        is_success(resp.status),
    ensures
        plan_for_response(resp, u, base) != BodyPlan::FetchBody,
        plan_for_response(resp, u, base) != BodyPlan::Broken,
        same_host(u, base) && is_html_content(resp.content_type)
            ==> plan_for_response(resp, u, base) == BodyPlan::ParseInHand,
{
}

} // verus!
