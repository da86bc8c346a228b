use vstd::prelude::*;

verus! {

/// The parts of a parsed absolute URL that the crawl reads, as the `url`
/// crate serializes them (its serialization is canonical and ASCII).
pub struct CrawlUrl {
    /// The scheme, lower case, without the trailing `:` (e.g. `http`).
    pub scheme: String,
    /// The serialized host, when the URL has one.
    pub host: Option<String>,
    /// The full serialization of the URL.
    pub serialization: String,
    /// The serialization up to, and not including, any `#` delimiter.
    pub key: String,
    /// Whether the URL carries a fragment.
    pub has_fragment: bool,
}

/// The mathematical model of a parsed URL: the five parts as sequences.
pub ghost struct UrlModel {
    pub scheme: Seq<char>,
    pub host: Option<Seq<char>>,
    pub serialization: Seq<char>,
    pub key: Seq<char>,
    pub has_fragment: bool,
}

impl UrlModel {
    /// What holds of the parts of every URL the `url` crate hands out: a URL
    /// without a fragment serializes exactly to its fragment-free form.
    pub open spec fn wf(self) -> bool {
        !self.has_fragment ==> self.key == self.serialization
    }
}

impl View for CrawlUrl {
    type V = UrlModel;

    open spec fn view(&self) -> UrlModel {
        UrlModel {
            scheme: self.scheme@,
            host: match self.host {
                Some(h) => Some(h@),
                None => None,
            },
            serialization: self.serialization@,
            key: self.key@,
            has_fragment: self.has_fragment,
        }
    }
}

impl DeepView for CrawlUrl {
    type V = UrlModel;

    open spec fn deep_view(&self) -> UrlModel {
        self.view()
    }
}

impl CrawlUrl {
    /// An owned copy, for handing one URL to several places at once.
    pub fn duplicate(&self) -> (r: CrawlUrl)
        ensures
            r == *self,
    {
        CrawlUrl {
            scheme: self.scheme.clone(),
            host: match &self.host {
                Some(h) => Some(h.clone()),
                None => None,
            },
            serialization: self.serialization.clone(),
            key: self.key.clone(),
            has_fragment: self.has_fragment,
        }
    }
}

/// What `url::Url::parse` returns on a string, read as this crate's model:
/// `Some` exactly when the string parses as an absolute URL.
pub uninterp spec fn parsed_url(s: Seq<char>) -> Option<UrlModel>;

/// What resolving a string against a base URL string returns:
/// `url::Url::parse` on the base, then `url::Url::join` with the string.
pub uninterp spec fn joined_url(base: Seq<char>, s: Seq<char>) -> Option<UrlModel>;

/// The model of an optional set of URL parts.
pub open spec fn url_parts_model(r: Option<CrawlUrl>) -> Option<UrlModel> {
    match r {
        Some(u) => Some(u@),
        None => None,
    }
}

/// Relies on `url::Url::parse` and the accessors `scheme`, `host_str`,
/// `as_str` and `fragment`; indexing to `url::Position::AfterQuery` yields
/// the serialization up to any `#` delimiter and is the whole serialization
/// when there is no fragment, so the parts satisfy `UrlModel::wf`.
#[verifier::external_body]
fn parse_absolute(s: &str) -> (r: Option<CrawlUrl>)
    ensures
        url_parts_model(r) == parsed_url(s@),
        r matches Some(u) ==> u@.wf(),
{
    match url::Url::parse(s) {
        Ok(u) => Some(CrawlUrl {
            scheme: u.scheme().to_string(),
            host: u.host_str().map(|h| h.to_string()),
            serialization: u.as_str().to_string(),
            key: String::from(&u[..url::Position::AfterQuery]),
            has_fragment: u.fragment().is_some(),
        }),
        Err(_) => None,
    }
}

/// Relies on `url::Url::parse` on the base string and `url::Url::join`, and
/// on the same accessors as `parse_absolute`; the result depends on the two
/// strings alone.
#[verifier::external_body]
fn join_with_base(base: &str, s: &str) -> (r: Option<CrawlUrl>)
    ensures
        url_parts_model(r) == joined_url(base@, s@),
        r matches Some(u) ==> u@.wf(),
{
    let b = match url::Url::parse(base) { Ok(b) => b, Err(_) => return None };
    match b.join(s) {
        Ok(u) => Some(CrawlUrl {
            scheme: u.scheme().to_string(),
            host: u.host_str().map(|h| h.to_string()),
            serialization: u.as_str().to_string(),
            key: String::from(&u[..url::Position::AfterQuery]),
            has_fragment: u.fragment().is_some(),
        }),
        Err(_) => None,
    }
}

/// Does the scheme pass the crawl's filter (exactly `http` or `https`)?
pub open spec fn scheme_ok(u: UrlModel) -> bool {
    u.scheme == "http"@ || u.scheme == "https"@
}

fn scheme_allowed(scheme: &String) -> (r: bool)
    ensures
        r == (scheme@ == "http"@ || scheme@ == "https"@),
{
    let http: String = "http".to_owned();
    let https: String = "https".to_owned();
    *scheme == http || *scheme == https
}

/// Resolution before the scheme filter: a string that parses as an absolute
/// URL stands as parsed; otherwise it is joined against the base.
pub open spec fn resolve_model(raw: Seq<char>, base: Seq<char>) -> Option<UrlModel> {
    match parsed_url(raw) {
        Some(u) => Some(u),
        None => joined_url(base, raw),
    }
}

/// Full resolution: `resolve_model`, then rejection of every scheme other
/// than `http` and `https` (`mailto:`, `javascript:`, `data:`, ...).
pub open spec fn resolve_filtered(raw: Seq<char>, base: Seq<char>) -> Option<UrlModel> {
    match resolve_model(raw, base) {
        Some(u) => if scheme_ok(u) {
            Some(u)
        } else {
            None
        },
        None => None,
    }
}

/// Turn a raw candidate link into an absolute, scheme-filtered URL, or
/// reject it. Purely syntactic; no network access.
pub fn validate_and_make_full_url(path_or_external: &str, base: &CrawlUrl) -> (r: Option<CrawlUrl>)
    ensures
        url_parts_model(r) == resolve_filtered(path_or_external@, base@.serialization),
        r matches Some(u) ==> u@.wf() && scheme_ok(u@),
{
    let resolved = match parse_absolute(path_or_external) {
        Some(u) => Some(u),
        None => join_with_base(base.serialization.as_str(), path_or_external),
    };
    match resolved {
        Some(u) => if scheme_allowed(&u.scheme) {
            Some(u)
        } else {
            None
        },
        None => None,
    }
}

/// Parse the operator's base URL. The crawl aborts when this yields `None`.
pub fn parse_base_url(s: &str) -> (r: Option<CrawlUrl>)
    ensures
        url_parts_model(r) == parsed_url(s@),
        r matches Some(u) ==> u@.wf(),
{
    parse_absolute(s)
}

/// The Normalized Key of a URL: its serialization with any fragment removed.
/// This, not the full URL, is the unit of deduplication.
pub open spec fn normalized_key(u: UrlModel) -> Seq<char> {
    if u.has_fragment {
        u.key
    } else {
        u.serialization
    }
}

/// Compute the Normalized Key of a URL.
pub fn normalize(url: &CrawlUrl) -> (r: String)
    ensures
        r@ == normalized_key(url@),
{
    if url.has_fragment {
        url.key.clone()
    } else {
        url.serialization.clone()
    }
}

/// Scheme-filter law: whatever a candidate string resolves to, the filtered
/// resolution admits only the `http` and `https` schemes — `mailto:`,
/// `javascript:`, `data:` and every other scheme are rejected.
pub proof fn lemma_scheme_filter(raw: Seq<char>, base: Seq<char>)
    ensures
        resolve_filtered(raw, base) matches Some(u) ==> scheme_ok(u),
{
}

/// Fragment equivalence: the Normalized Key of a well-formed URL is its
/// fragment-free form, so two URLs that differ only in their fragment (and
/// hence share that form) have the identical key.
pub proof fn lemma_normalized_key_ignores_fragment(a: UrlModel, b: UrlModel)
    requires
        a.wf(),
        b.wf(),
        a.key == b.key,
    ensures
        normalized_key(a) == normalized_key(b),
{
}

} // verus!
