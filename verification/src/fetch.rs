//! Safety checks on URLs before a server-side fetch, and the reduction of a
//! fetched HTML document to the page record the research pipeline stores.

use vstd::prelude::*;

use crate::text::{
    collapse, collapse_whitespace, join_strings, join_with_spaces, opt_view, owned, str_eq,
    string_views, truncate_chars,
};

verus! {

// ---------------------------------------------------------------------------
// URLs, as the `url` crate parses them.
// ---------------------------------------------------------------------------

#[verifier::external_type_specification]
#[verifier::external_body]
pub struct ExUrlParseError(url::ParseError);

/// The host of a parsed URL.
pub enum UrlHost {
    Domain(String),
    Ipv4([u8; 4]),
    Ipv6([u16; 8]),
}

/// What the fetch path reads of a parsed URL: its scheme, its host, and its
/// explicit or scheme-default port.
pub struct ParsedUrl {
    pub scheme: String,
    pub host: Option<UrlHost>,
    pub port: Option<u16>,
}

pub enum HostView {
    Domain(Seq<char>),
    Ipv4([u8; 4]),
    Ipv6([u16; 8]),
}

pub struct UrlView {
    pub scheme: Seq<char>,
    pub host: Option<HostView>,
    pub port: Option<u16>,
}

impl View for UrlHost {
    type V = HostView;

    open spec fn view(&self) -> HostView {
        match self {
            UrlHost::Domain(d) => HostView::Domain(d@),
            UrlHost::Ipv4(o) => HostView::Ipv4(*o),
            UrlHost::Ipv6(s) => HostView::Ipv6(*s),
        }
    }
}

impl View for ParsedUrl {
    type V = UrlView;

    open spec fn view(&self) -> UrlView {
        UrlView {
            scheme: self.scheme@,
            host: match self.host {
                Some(h) => Some(h@),
                None => None,
            },
            port: self.port,
        }
    }
}

/// What `url::Url::parse` yields for `input` (`None` when it fails), read
/// through `scheme()`, `host()` and `port_or_known_default()`.
pub uninterp spec fn spec_url_parse(input: Seq<char>) -> Option<UrlView>;

/// Parses `input` with `url::Url::parse` and reads its scheme, host and
/// `port_or_known_default()`. The contract only ties the result to the
/// name `spec_url_parse`; what the WHATWG parser accepts is not stated.
#[verifier::external_body]
fn url_parse(input: &str) -> (res: Result<ParsedUrl, url::ParseError>)
    ensures
        res matches Ok(u) ==> spec_url_parse(input@) == Some(u@),
        res is Err ==> spec_url_parse(input@) is None,
{
    let u = url::Url::parse(input)?;
    let host = match u.host() {
        Some(url::Host::Domain(d)) => Some(UrlHost::Domain(d.to_string())),
        Some(url::Host::Ipv4(a)) => Some(UrlHost::Ipv4(a.octets())),
        Some(url::Host::Ipv6(a)) => Some(UrlHost::Ipv6(a.segments())),
        None => None,
    };
    Ok(ParsedUrl { scheme: u.scheme().to_string(), host, port: u.port_or_known_default() })
}

/// Parses a URL; `None` when the `url` crate rejects it.
pub fn parse_url(input: &str) -> (res: Option<ParsedUrl>)
    ensures
        res matches Some(u) ==> spec_url_parse(input@) == Some(u@),
        res is None ==> spec_url_parse(input@) is None,
{
    match url_parse(input) {
        Ok(u) => Some(u),
        Err(_) => None,
    }
}

// ---------------------------------------------------------------------------
// Address ranges that server-side fetches must never reach.
// ---------------------------------------------------------------------------

/// IPv4 loopback, private, link-local (which holds the cloud metadata
/// address 169.254.169.254), broadcast, multicast, documentation and
/// unspecified addresses, as std's `Ipv4Addr` predicates define them, plus
/// carrier-grade NAT 100.64.0.0/10.
pub open spec fn disallowed_v4(o: [u8; 4]) -> bool {
    let (a, b, c, d) = (o@[0], o@[1], o@[2], o@[3]);
    ||| a == 127
    ||| a == 10
    ||| (a == 172 && 16 <= b <= 31)
    ||| (a == 192 && b == 168)
    ||| (a == 169 && b == 254)
    ||| (a == 255 && b == 255 && c == 255 && d == 255)
    ||| (224 <= a <= 239)
    ||| (a == 192 && b == 0 && c == 2)
    ||| (a == 198 && b == 51 && c == 100)
    ||| (a == 203 && b == 0 && c == 113)
    ||| (a == 0 && b == 0 && c == 0 && d == 0)
    ||| (a == 100 && 64 <= b <= 127)
}

/// The IPv4 address of an IPv4-mapped IPv6 address `::ffff:a.b.c.d`.
pub open spec fn mapped_v4(s: [u16; 8]) -> Option<[u8; 4]> {
    if s@[0] == 0 && s@[1] == 0 && s@[2] == 0 && s@[3] == 0 && s@[4] == 0 && s@[5] == 0xffff {
        Some([(s@[6] >> 8) as u8, (s@[6] & 0xff) as u8, (s@[7] >> 8) as u8, (s@[7] & 0xff) as u8])
    } else {
        None
    }
}

/// IPv6 loopback, unspecified, multicast, unique-local fc00::/7 and
/// link-local fe80::/10 addresses, and IPv4-mapped addresses of a
/// disallowed IPv4 address.
pub open spec fn disallowed_v6(s: [u16; 8]) -> bool {
    let zero_prefix = s@[0] == 0 && s@[1] == 0 && s@[2] == 0 && s@[3] == 0 && s@[4] == 0 && s@[5]
        == 0 && s@[6] == 0;
    ||| (zero_prefix && s@[7] == 1)
    ||| (zero_prefix && s@[7] == 0)
    ||| (s@[0] & 0xff00) == 0xff00
    ||| (s@[0] & 0xfe00) == 0xfc00
    ||| (s@[0] & 0xffc0) == 0xfe80
    ||| (mapped_v4(s) matches Some(v4) && disallowed_v4(v4))
}

pub fn is_disallowed_v4(o: &[u8; 4]) -> (res: bool)
    ensures
        res == disallowed_v4(*o),
{
    let a = o[0];
    let b = o[1];
    let c = o[2];
    let d = o[3];
    a == 127 || a == 10 || (a == 172 && 16 <= b && b <= 31) || (a == 192 && b == 168) || (a == 169
        && b == 254) || (a == 255 && b == 255 && c == 255 && d == 255) || (224 <= a && a <= 239)
        || (a == 192 && b == 0 && c == 2) || (a == 198 && b == 51 && c == 100) || (a == 203 && b
        == 0 && c == 113) || (a == 0 && b == 0 && c == 0 && d == 0) || (a == 100 && 64 <= b && b
        <= 127)
}

pub fn is_disallowed_v6(s: &[u16; 8]) -> (res: bool)
    ensures
        res == disallowed_v6(*s),
{
    let zero_prefix = s[0] == 0 && s[1] == 0 && s[2] == 0 && s[3] == 0 && s[4] == 0 && s[5] == 0
        && s[6] == 0;
    if zero_prefix && (s[7] == 1 || s[7] == 0) {
        return true;
    }
    if (s[0] & 0xff00) == 0xff00 || (s[0] & 0xfe00) == 0xfc00 || (s[0] & 0xffc0) == 0xfe80 {
        return true;
    }
    if s[0] == 0 && s[1] == 0 && s[2] == 0 && s[3] == 0 && s[4] == 0 && s[5] == 0xffff {
        let v4: [u8; 4] = [(s[6] >> 8) as u8, (s[6] & 0xff) as u8, (s[7] >> 8) as u8, (s[7] & 0xff) as u8];
        let r = is_disallowed_v4(&v4);
        assert(mapped_v4(*s) == Some(v4));
        return r;
    }
    false
}

/// A resolved address of a host.
pub enum IpAddress {
    V4([u8; 4]),
    V6([u16; 8]),
}

pub open spec fn disallowed_ip(a: IpAddress) -> bool {
    match a {
        IpAddress::V4(o) => disallowed_v4(o),
        IpAddress::V6(s) => disallowed_v6(s),
    }
}

pub fn is_disallowed_ip(a: &IpAddress) -> (res: bool)
    ensures
        res == disallowed_ip(*a),
{
    match a {
        IpAddress::V4(o) => is_disallowed_v4(o),
        IpAddress::V6(s) => is_disallowed_v6(s),
    }
}

// ---------------------------------------------------------------------------
// Validation of a URL before fetching it.
// ---------------------------------------------------------------------------

pub enum UrlError {
    /// The `url` crate could not parse it.
    Invalid,
    /// A scheme other than `http` or `https`.
    DisallowedScheme(String),
    /// No host to connect to.
    MissingHost,
    /// The host is, or resolves to, a disallowed address.
    DisallowedAddress,
}

/// What remains to be checked of a URL that passed validation.
pub enum UrlCheck {
    /// The host is a literal address outside the disallowed ranges.
    Allowed,
    /// The host is a domain; every address it resolves to must pass
    /// `check_resolved_addresses` before the fetch.
    ResolveDomain { domain: String, port: u16 },
}

pub open spec fn http_scheme(s: Seq<char>) -> bool {
    s == "http"@ || s == "https"@
}

/// The view of an optional parse result.
pub open spec fn parsed_view(parsed: Option<ParsedUrl>) -> Option<UrlView> {
    match parsed {
        Some(u) => Some(u@),
        None => None,
    }
}

/// The outcome of the static URL checks for the parse result `parsed`:
/// rejected when it did not parse, when the scheme is not `http` or
/// `https`, when there is no host, or when a literal address host is
/// disallowed; a domain host is handed back with the port to connect to
/// (the explicit or default port, else 80).
pub open spec fn url_check_outcome(parsed: Option<UrlView>, res: Result<UrlCheck, UrlError>) -> bool {
    match parsed {
        None => res matches Err(UrlError::Invalid),
        Some(p) => if !http_scheme(p.scheme) {
            res matches Err(UrlError::DisallowedScheme(s)) && s@ == p.scheme
        } else {
            match p.host {
                None => res matches Err(UrlError::MissingHost),
                Some(HostView::Ipv4(o)) => if disallowed_v4(o) {
                    res matches Err(UrlError::DisallowedAddress)
                } else {
                    res matches Ok(UrlCheck::Allowed)
                },
                Some(HostView::Ipv6(s)) => if disallowed_v6(s) {
                    res matches Err(UrlError::DisallowedAddress)
                } else {
                    res matches Ok(UrlCheck::Allowed)
                },
                Some(HostView::Domain(d)) => res matches Ok(UrlCheck::ResolveDomain { domain, port })
                    && domain@ == d && port == (match p.port {
                    Some(q) => q,
                    None => 80u16,
                }),
            }
        },
    }
}

/// The static checks of a URL, given what the `url` crate parsed of it.
pub fn check_parsed_url(parsed: Option<ParsedUrl>) -> (res: Result<UrlCheck, UrlError>)
    ensures
        url_check_outcome(parsed_view(parsed), res),
{
    let parsed = match parsed {
        Some(p) => p,
        None => return Err(UrlError::Invalid),
    };
    if !(str_eq(parsed.scheme.as_str(), "http") || str_eq(parsed.scheme.as_str(), "https")) {
        return Err(UrlError::DisallowedScheme(parsed.scheme));
    }
    match parsed.host {
        None => Err(UrlError::MissingHost),
        Some(UrlHost::Ipv4(o)) => {
            if is_disallowed_v4(&o) {
                Err(UrlError::DisallowedAddress)
            } else {
                Ok(UrlCheck::Allowed)
            }
        },
        Some(UrlHost::Ipv6(s)) => {
            if is_disallowed_v6(&s) {
                Err(UrlError::DisallowedAddress)
            } else {
                Ok(UrlCheck::Allowed)
            }
        },
        Some(UrlHost::Domain(d)) => {
            let port = match parsed.port {
                Some(q) => q,
                None => 80,
            };
            Ok(UrlCheck::ResolveDomain { domain: d, port })
        },
    }
}

/// The static part of the check of `url` before a server-side fetch: it
/// must parse, use `http` or `https`, have a host, and a literal address
/// host must lie outside the disallowed ranges. Resolving a domain host is
/// I/O and left to the caller: it is handed back with the port to resolve
/// at, and `check_url_with_resolution` gives the whole decision once the
/// addresses are known.
pub fn validate_external_url(url: &str) -> (res: Result<UrlCheck, UrlError>)
    ensures
        url_check_outcome(spec_url_parse(url@), res),
{
    check_parsed_url(parse_url(url))
}

/// Checks the addresses a domain resolved to: fails when any of them is
/// disallowed.
pub fn check_resolved_addresses(addrs: &Vec<IpAddress>) -> (res: Result<(), UrlError>)
    ensures
        res is Ok <==> forall|i: int| 0 <= i < addrs@.len() ==> !disallowed_ip(#[trigger] addrs@[i]),
        res is Err ==> res matches Err(UrlError::DisallowedAddress),
{
    let mut i: usize = 0;
    while i < addrs.len()
        invariant
            0 <= i <= addrs@.len(),
            forall|k: int| 0 <= k < i ==> !disallowed_ip(#[trigger] addrs@[k]),
        decreases addrs@.len() - i,
    {
        if is_disallowed_ip(&addrs[i]) {
            return Err(UrlError::DisallowedAddress);
        }
        i = i + 1;
    }
    Ok(())
}

/// Whether a server-side fetch of `url` is allowed, where `resolved` lists
/// the addresses that its domain host resolves to at the port that
/// `validate_external_url` hands back (empty when resolution fails): the URL
/// parses, uses `http` or `https` and has a host; a literal address host lies
/// outside the disallowed ranges, and a domain host resolves to no
/// disallowed address.
pub open spec fn fetch_allowed(url: Seq<char>, resolved: Seq<IpAddress>) -> bool {
    match spec_url_parse(url) {
        None => false,
        Some(p) => http_scheme(p.scheme) && match p.host {
            None => false,
            Some(HostView::Ipv4(o)) => !disallowed_v4(o),
            Some(HostView::Ipv6(s)) => !disallowed_v6(s),
            Some(HostView::Domain(_)) => forall|i: int|
                0 <= i < resolved.len() ==> !disallowed_ip(#[trigger] resolved[i]),
        },
    }
}

/// The whole check of a URL before a fetch, given the addresses its domain
/// host resolved to: the checks of `validate_external_url`, then, for a
/// domain host, those of `check_resolved_addresses`.
pub fn check_url_with_resolution(url: &str, resolved: &Vec<IpAddress>) -> (res: Result<(), UrlError>)
    ensures
        res is Ok <==> fetch_allowed(url@, resolved@),
        spec_url_parse(url@) is None ==> res matches Err(UrlError::Invalid),
        spec_url_parse(url@) matches Some(p) ==> (!http_scheme(p.scheme) ==> (res matches Err(
            UrlError::DisallowedScheme(s),
        ) && s@ == p.scheme)),
        spec_url_parse(url@) matches Some(p) ==> (http_scheme(p.scheme) && p.host is None ==> res
            matches Err(UrlError::MissingHost)),
        spec_url_parse(url@) matches Some(p) ==> (http_scheme(p.scheme) && p.host is Some && res
            is Err ==> res matches Err(UrlError::DisallowedAddress)),
{
    match validate_external_url(url) {
        Err(e) => Err(e),
        Ok(UrlCheck::Allowed) => Ok(()),
        Ok(UrlCheck::ResolveDomain { .. }) => check_resolved_addresses(resolved),
    }
}

/// The two steps of the URL check make up the whole decision: a fetch of
/// `url` is allowed exactly when the static check (`validate_external_url`)
/// allows a literal address host, or hands back a domain whose resolved
/// addresses all pass `check_resolved_addresses`.
pub proof fn law_url_checks_compose(
    url: Seq<char>,
    resolved: Seq<IpAddress>,
    static_check: Result<UrlCheck, UrlError>,
)
    requires
        url_check_outcome(spec_url_parse(url), static_check),
    ensures
        fetch_allowed(url, resolved) <==> match static_check {
            Ok(UrlCheck::Allowed) => true,
            Ok(UrlCheck::ResolveDomain { .. }) => forall|i: int|
                0 <= i < resolved.len() ==> !disallowed_ip(#[trigger] resolved[i]),
            Err(_) => false,
        },
{
}

// ---------------------------------------------------------------------------
// Fetched pages.
// ---------------------------------------------------------------------------

/// The most characters of page text that are kept.
pub const PAGE_TEXT_LIMIT: usize = 16000;

pub struct FetchedPage {
    pub url: String,
    pub title: Option<String>,
    pub domain: Option<String>,
    pub text: String,
}

/// The text nodes of the first `<title>` element of an HTML document, in
/// document order, as `scraper` parses it; `None` without such an element.
pub uninterp spec fn spec_html_title_nodes(body: Seq<char>) -> Option<Seq<Seq<char>>>;

/// The text nodes of the root element of an HTML document, in document
/// order, as `scraper` parses it.
pub uninterp spec fn spec_html_document_nodes(body: Seq<char>) -> Seq<Seq<char>>;

/// Parses `body` with `scraper::Html::parse_document`, selects the first
/// `title` element and hands back its text nodes (`ElementRef::text`). The
/// result is only tied to the name `spec_html_title_nodes`.
#[verifier::external_body]
fn html_title_nodes(body: &str) -> (res: Option<Vec<String>>)
    ensures
        match res {
            Some(v) => spec_html_title_nodes(body@) == Some(string_views(v@)),
            None => spec_html_title_nodes(body@) is None,
        },
{
    let document = scraper::Html::parse_document(body);
    match scraper::Selector::parse("title") {
        Ok(selector) => match document.select(&selector).next() {
            Some(node) => Some(node.text().map(String::from).collect()),
            None => None,
        },
        Err(_) => None,
    }
}

/// Parses `body` with `scraper::Html::parse_document` and hands back the
/// text nodes of its root element (`ElementRef::text`). The result is only
/// tied to the name `spec_html_document_nodes`.
#[verifier::external_body]
fn html_document_nodes(body: &str) -> (res: Vec<String>)
    ensures
        spec_html_document_nodes(body@) == string_views(res@),
{
    let document = scraper::Html::parse_document(body);
    document.root_element().text().map(String::from).collect()
}

/// The domain of a parsed URL, when its host is a domain name
/// (`Url::domain`).
pub open spec fn domain_of(parsed: Option<UrlView>) -> Option<Seq<char>> {
    match parsed {
        Some(p) => match p.host {
            Some(HostView::Domain(d)) => Some(d),
            _ => None,
        },
        None => None,
    }
}

/// The domain of a URL, when its host is a domain name.
pub open spec fn url_domain(url: Seq<char>) -> Option<Seq<char>> {
    domain_of(spec_url_parse(url))
}

/// The title kept of the title's text nodes: joined by single spaces and
/// collapsed, unless that is empty.
pub open spec fn title_of_nodes(nodes: Option<Seq<Seq<char>>>) -> Option<Seq<char>> {
    match nodes {
        Some(n) => if collapse(join_with_spaces(n)).len() > 0 {
            Some(collapse(join_with_spaces(n)))
        } else {
            None
        },
        None => None,
    }
}

/// The text kept of a document's text nodes: joined by single spaces and
/// collapsed, at most `PAGE_TEXT_LIMIT` characters of it.
pub open spec fn text_of_nodes(nodes: Seq<Seq<char>>) -> Seq<char> {
    let t = collapse(join_with_spaces(nodes));
    t.take(if PAGE_TEXT_LIMIT < t.len() { PAGE_TEXT_LIMIT as int } else { t.len() as int })
}

/// The kept page text is the beginning of the collapsed document text: its
/// first `PAGE_TEXT_LIMIT` characters, or all of it when it is shorter.
pub proof fn law_page_text_is_the_start_of_the_document(nodes: Seq<Seq<char>>)
    ensures
        ({
            let full = collapse(join_with_spaces(nodes));
            let kept = text_of_nodes(nodes);
            &&& kept.len() == if full.len() < 16000 { full.len() } else { 16000 }
            &&& forall|i: int| 0 <= i < kept.len() ==> #[trigger] kept[i] == full[i]
        }),
{
}

/// The title kept is the collapsed title text exactly, when it is not empty.
pub proof fn law_page_title_is_the_collapsed_title(nodes: Seq<Seq<char>>)
    ensures
        collapse(join_with_spaces(nodes)).len() > 0 ==> title_of_nodes(Some(nodes)) == Some(
            collapse(join_with_spaces(nodes)),
        ),
        collapse(join_with_spaces(nodes)).len() == 0 ==> title_of_nodes(Some(nodes)) is None,
        title_of_nodes(None) is None,
{
}

/// The page title kept of the document `body`.
pub open spec fn page_title(body: Seq<char>) -> Option<Seq<char>> {
    title_of_nodes(spec_html_title_nodes(body))
}

/// The page text kept of the document `body`.
pub open spec fn page_text(body: Seq<char>) -> Seq<char> {
    text_of_nodes(spec_html_document_nodes(body))
}

/// Builds the page record of a document fetched from `url`, given what the
/// `url` crate parsed of `url` and the text nodes `scraper` found in the
/// document's title (if any) and in the whole document.
pub fn page_from_parts(
    url: &str,
    parsed: Option<ParsedUrl>,
    title_nodes: Option<Vec<String>>,
    document_nodes: Vec<String>,
) -> (res: FetchedPage)
    ensures
        res.url@ == url@,
        opt_view(res.title) == title_of_nodes(
            match title_nodes {
                Some(v) => Some(string_views(v@)),
                None => None,
            },
        ),
        opt_view(res.domain) == domain_of(parsed_view(parsed)),
        res.text@ == text_of_nodes(string_views(document_nodes@)),
{
    let title = match title_nodes {
        Some(nodes) => {
            let raw = join_strings(&nodes);
            let t = collapse_whitespace(raw.as_str());
            if !t.as_str().is_empty() {
                Some(t)
            } else {
                None
            }
        },
        None => None,
    };
    let raw_text = join_strings(&document_nodes);
    let collapsed = collapse_whitespace(raw_text.as_str());
    let text = truncate_chars(collapsed.as_str(), PAGE_TEXT_LIMIT);
    let domain = match parsed {
        Some(p) => match p.host {
            Some(UrlHost::Domain(d)) => Some(d),
            _ => None,
        },
        None => None,
    };
    FetchedPage { url: owned(url), title, domain, text }
}

/// Builds the page record of the document `body` fetched from `url`.
pub fn page_from_html(url: &str, body: &str) -> (res: FetchedPage)
    ensures
        res.url@ == url@,
        opt_view(res.title) == page_title(body@),
        opt_view(res.domain) == url_domain(url@),
        res.text@ == page_text(body@),
{
    page_from_parts(url, parse_url(url), html_title_nodes(body), html_document_nodes(body))
}

} // verus!
