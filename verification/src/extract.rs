use vstd::prelude::*;
use crate::pipeline::{CrawlError, CrawlOutcome};
use crate::urls::{CrawlUrl, UrlModel, resolve_filtered, validate_and_make_full_url};

verus! {

/// What scanning a parsed HTML document for one (tag, attribute) source
/// yields: the attribute's value for each element with that tag name, in
/// document order; `None` when the document cannot be read at all.
pub uninterp spec fn found_attr_values(html: Seq<u8>, tag: Seq<char>, attr: Seq<char>) -> Option<
    Seq<Seq<char>>,
>;

/// Relies on `select::document::Document::from_read`, `Document::find` with
/// `select::predicate::Name`, and `Node::attr`: parses `html` once and
/// yields, in document order, the value of `attr` for every element named
/// `tag` that has it. The result depends on the three arguments alone.
#[verifier::external_body]
fn find_attr_values(html: &[u8], tag: &str, attr: &str) -> (r: Option<Vec<String>>)
    ensures
        match r {
            Some(v) => found_attr_values(html@, tag@, attr@) == Some(v.deep_view()),
            None => found_attr_values(html@, tag@, attr@) is None,
        },
{
    let doc = match select::document::Document::from_read(html) {
        Ok(d) => d,
        Err(_) => return None,
    };
    Some(
        doc.find(select::predicate::Name(tag))
            .filter_map(|n| n.attr(attr))
            .map(|s| s.to_string())
            .collect(),
    )
}

/// Does the string contain the `#` fragment delimiter? Such a candidate
/// refers to a resource already covered and is dropped before resolution.
pub open spec fn has_fragment_marker(s: Seq<char>) -> bool {
    exists|i: int| 0 <= i < s.len() && s[i] == '#'
}

fn contains_fragment_marker(s: &String) -> (r: bool)
    ensures
        r == has_fragment_marker(s@),
{
    let n = s.as_str().unicode_len();
    let mut i: usize = 0;
    while i < n
        invariant
            n == s@.len(),
            i <= n,
            forall|j: int| 0 <= j < i ==> s@[j] != '#',
        decreases n - i,
    {
        if s.as_str().get_char(i) == '#' {
            return true;
        }
        i += 1;
    }
    false
}

/// The candidates kept from one source: those without a fragment marker,
/// in order.
pub open spec fn keep_non_fragment(vs: Seq<Seq<char>>) -> Seq<Seq<char>>
    decreases vs.len(),
{
    if vs.len() == 0 {
        Seq::empty()
    } else {
        keep_non_fragment(vs.drop_last()) + if has_fragment_marker(vs.last()) {
            Seq::<Seq<char>>::empty()
        } else {
            seq![vs.last()]
        }
    }
}

/// The kept candidates of one (tag, attribute) source of a document.
pub open spec fn pair_candidates(html: Seq<u8>, tag: Seq<char>, attr: Seq<char>) -> Seq<Seq<char>> {
    match found_attr_values(html, tag, attr) {
        Some(vs) => keep_non_fragment(vs),
        None => Seq::empty(),
    }
}

/// Did the document parse for every link source?
pub open spec fn extraction_ok(html: Seq<u8>) -> bool {
    &&& found_attr_values(html, "a"@, "href"@) is Some
    &&& found_attr_values(html, "script"@, "src"@) is Some
    &&& found_attr_values(html, "img"@, "src"@) is Some
    &&& found_attr_values(html, "link"@, "href"@) is Some
}

/// All raw link candidates of a document: the fixed, ordered list of link
/// sources — anchor/href, script/src, image/src, stylesheet-link/href —
/// each filtered of fragment-bearing strings, concatenated.
pub open spec fn candidates(html: Seq<u8>) -> Seq<Seq<char>> {
    pair_candidates(html, "a"@, "href"@) + pair_candidates(html, "script"@, "src"@)
        + pair_candidates(html, "img"@, "src"@) + pair_candidates(html, "link"@, "href"@)
}

fn append_non_fragment(out: &mut Vec<String>, vs: Vec<String>)
    ensures
        final(out).deep_view() == old(out).deep_view() + keep_non_fragment(vs.deep_view()),
{
    let ghost entry = old(out).deep_view();
    let mut i: usize = 0;
    while i < vs.len()
        invariant
            i <= vs@.len(),
            vs.deep_view().len() == vs@.len(),
            out.deep_view() == entry + keep_non_fragment(vs.deep_view().take(i as int)),
        decreases vs@.len() - i,
    {
        let ghost prev = out.deep_view();
        let v = &vs[i];
        if !contains_fragment_marker(v) {
            out.push(v.clone());
            proof {
                assert(out.deep_view() =~= prev.push(v@));
            }
        }
        proof {
            let dv = vs.deep_view();
            assert(dv.take(i as int + 1).drop_last() =~= dv.take(i as int));
            assert(dv.take(i as int + 1).last() == dv[i as int]);
            assert(dv[i as int] == v@);
            assert(out.deep_view() =~= entry + keep_non_fragment(dv.take(i as int + 1)));
        }
        i += 1;
    }
    proof {
        assert(vs.deep_view().take(vs.deep_view().len() as int) =~= vs.deep_view());
    }
}

/// Scan an HTML body for raw link candidates from the fixed link sources,
/// dropping every candidate that carries a fragment marker; `None` when
/// the document cannot be parsed.
pub fn extract_candidates(html: &[u8]) -> (r: Option<Vec<String>>)
    ensures
        match r {
            Some(v) => extraction_ok(html@) && v.deep_view() == candidates(html@),
            None => !extraction_ok(html@),
        },
{
    let mut out: Vec<String> = Vec::new();
    proof {
        assert(out.deep_view() =~= Seq::<Seq<char>>::empty());
    }
    let a = match find_attr_values(html, "a", "href") {
        Some(v) => v,
        None => return None,
    };
    append_non_fragment(&mut out, a);
    let scripts = match find_attr_values(html, "script", "src") {
        Some(v) => v,
        None => return None,
    };
    append_non_fragment(&mut out, scripts);
    let imgs = match find_attr_values(html, "img", "src") {
        Some(v) => v,
        None => return None,
    };
    append_non_fragment(&mut out, imgs);
    let links = match find_attr_values(html, "link", "href") {
        Some(v) => v,
        None => return None,
    };
    append_non_fragment(&mut out, links);
    Some(out)
}

/// The URLs a list of candidates resolves to against a base, in order:
/// each candidate resolved and scheme-filtered, the rejected ones silently
/// dropped.
pub open spec fn resolved_links(cs: Seq<Seq<char>>, base: Seq<char>) -> Seq<UrlModel>
    decreases cs.len(),
{
    if cs.len() == 0 {
        Seq::empty()
    } else {
        resolved_links(cs.drop_last(), base) + match resolve_filtered(cs.last(), base) {
            Some(u) => seq![u],
            None => Seq::<UrlModel>::empty(),
        }
    }
}

/// Extract a page's candidates and resolve each against the base URL: the
/// newly discovered URLs to submit, in discovery order. `None` exactly
/// when the document cannot be parsed.
pub fn extract_and_resolve(html: &[u8], base: &CrawlUrl) -> (r: Option<Vec<CrawlUrl>>)
    ensures
        match r {
            Some(v) => extraction_ok(html@) && v.deep_view() == resolved_links(
                candidates(html@),
                base@.serialization,
            ),
            None => !extraction_ok(html@),
        },
{
    let cands = match extract_candidates(html) {
        Some(v) => v,
        None => return None,
    };
    let mut out: Vec<CrawlUrl> = Vec::new();
    proof {
        assert(out.deep_view() =~= Seq::<UrlModel>::empty());
    }
    let mut i: usize = 0;
    while i < cands.len()
        invariant
            i <= cands@.len(),
            cands.deep_view().len() == cands@.len(),
            cands.deep_view() == candidates(html@),
            out.deep_view() == resolved_links(
                cands.deep_view().take(i as int),
                base@.serialization,
            ),
        decreases cands@.len() - i,
    {
        let ghost prev = out.deep_view();
        let c = &cands[i];
        match validate_and_make_full_url(c.as_str(), base) {
            Some(u) => {
                out.push(u);
                proof {
                    assert(out.deep_view() =~= prev.push(out.deep_view().last()));
                }
            },
            None => {},
        }
        proof {
            let dv = cands.deep_view();
            assert(dv.take(i as int + 1).drop_last() =~= dv.take(i as int));
            assert(dv.take(i as int + 1).last() == dv[i as int]);
            assert(dv[i as int] == c@);
            assert(out.deep_view() =~= resolved_links(
                dv.take(i as int + 1),
                base@.serialization,
            ));
        }
        i += 1;
    }
    proof {
        assert(cands.deep_view().take(cands.deep_view().len() as int) =~= cands.deep_view());
    }
    Some(out)
}

/// The last pipeline steps for an internal HTML page whose body is in
/// hand: parse and resolve its links, and give the outcome to report —
/// reachable with the body size, or broken with a parse failure — beside
/// the discovered URLs to submit.
pub fn process_body(html: &Vec<u8>, base: &CrawlUrl) -> (r: (CrawlOutcome, Vec<CrawlUrl>))
    ensures
        extraction_ok(html@) ==> r.0 == CrawlOutcome::Reachable(Some(html@.len() as usize))
            && r.1.deep_view() == resolved_links(candidates(html@), base@.serialization),
        !extraction_ok(html@) ==> r.0 == CrawlOutcome::Broken(CrawlError::Parse) && r.1@.len()
            == 0,
{
    match extract_and_resolve(html.as_slice(), base) {
        Some(links) => (CrawlOutcome::Reachable(Some(html.len())), links),
        None => (CrawlOutcome::Broken(CrawlError::Parse), Vec::new()),
    }
}

} // verus!
