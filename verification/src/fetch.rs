//! Request building and response translation: the scope check, the
//! validation and injection of caller-supplied cookies, the redirect
//! mode, and the structured response built from the exchange's final
//! URL, status, headers, and jar snapshot. Everything here is decided
//! before or after the HTTP exchange; the exchange itself is the
//! caller's.

use vstd::prelude::*;

use crate::client::CookieClient;
use crate::cookies::{
    entry_key, snapshot_matches, spec_domain_matches, spec_valid_record, CookieEntry, CookieProps,
    CookiePropsView, DomainCookies, Jar, JarError,
};
use crate::headers::{headers_wf, HeaderMap};
use crate::method::Method;
use crate::redirect::Redirect;
use crate::scope::{spec_is_allowed, Scope};
use crate::urlparse::{parse_url, url_parse, ParsedUrl};

verus! {

/// Why a fetch was refused or failed. Scope and cookie failures are
/// decided before any network I/O; `Transport` carries a failure of
/// the exchange itself, with the failing URL when it is known.
#[derive(Debug)]
pub enum FetchError {
    Transport { url: Option<String>, message: String },
    InvalidCookieDomain(String),
    InvalidCookie { domain: String, name: String },
    InvalidUrl,
    NotAllowed,
}

impl FetchError {
    /// The human-readable description of the failure.
    pub fn message(&self) -> (r: String)
        ensures
            match self {
                FetchError::NotAllowed => r@ == "url not allowed on the configured scope"@,
                FetchError::InvalidUrl => r@ == "invalid url"@,
                FetchError::InvalidCookieDomain(d) => r@ == "invalid cookie domain `"@ + d@ + "`"@,
                FetchError::InvalidCookie { domain, name } => r@ == "invalid cookie `"@ + name@
                    + "` of domain `"@ + domain@ + "`"@,
                FetchError::Transport { url: _, message } => r@ == message@,
            },
    {
        match self {
            FetchError::NotAllowed => String::from_str("url not allowed on the configured scope"),
            FetchError::InvalidUrl => String::from_str("invalid url"),
            FetchError::InvalidCookieDomain(d) => String::from_str("invalid cookie domain `")
                .concat(d.as_str()).concat("`"),
            FetchError::InvalidCookie { domain, name } => String::from_str("invalid cookie `")
                .concat(name.as_str()).concat("` of domain `").concat(domain.as_str()).concat("`"),
            FetchError::Transport { url: _, message } => message.clone(),
        }
    }
}

/// The error value handed across the sandbox boundary: the failing URL
/// when known, and a message the front-end can render.
#[derive(Debug)]
pub struct Error {
    pub url: Option<String>,
    pub message: String,
}

impl Error {
    /// Wraps a plain error message that carries no URL.
    pub fn from_std_error(message: &str) -> (r: Error)
        ensures
            r.url is None,
            r.message@ == message@,
    {
        Error { url: None, message: String::from_str(message) }
    }
}

/// Everything a caller may supply for one fetch: the method, the
/// headers, the cookies to inject (each addressed by domain and name),
/// the redirect mode, and the raw body bytes (used only when no
/// session streams the body instead).
#[derive(Debug)]
pub struct FetchOptions {
    pub method: Method,
    pub headers: HeaderMap,
    pub cookies: Vec<CookieEntry>,
    pub redirect: Redirect,
    pub body: Vec<u8>,
}

impl FetchOptions {
    /// The defaults of a fetch without options: GET, no headers, no
    /// cookies, follow redirects, empty body.
    pub fn new() -> (r: FetchOptions)
        ensures
            r.method@ == "GET"@,
            r.headers@ =~= Seq::<crate::headers::HeaderEntryView>::empty(),
            headers_wf(r.headers@),
            r.cookies@ =~= Seq::<CookieEntry>::empty(),
            r.redirect == Redirect::Follow,
            r.body@ =~= Seq::<u8>::empty(),
    {
        FetchOptions {
            method: Method::get(),
            headers: HeaderMap::new(),
            cookies: Vec::new(),
            redirect: Redirect::Follow,
            body: Vec::new(),
        }
    }
}

/// Validates the fetch target: the URL must parse, and its normalized
/// full string form must match the scope. Both checks happen before
/// any client is acquired and before any cookie is touched; an
/// unparseable target is `InvalidUrl`, a parseable one outside the
/// scope is `NotAllowed`, and nothing else fails here.
pub fn check_target(scope: &Scope, url: &str) -> (r: Result<ParsedUrl, FetchError>)
    ensures
        match r {
            Ok(p) => url_parse(url@) == Some((p.full@, p.host@)) && (scope.wf()
                ==> spec_is_allowed(scope@, p.full@)),
            Err(e) => match e {
                FetchError::InvalidUrl => url_parse(url@) is None,
                FetchError::NotAllowed => url_parse(url@) is Some && (scope.wf()
                    ==> !spec_is_allowed(scope@, url_parse(url@)->Some_0.0)),
                _ => false,
            },
        },
{
    match parse_url(url) {
        None => Err(FetchError::InvalidUrl),
        Some(p) => {
            if scope.is_allowed(p.full.as_str()) {
                Ok(p)
            } else {
                Err(FetchError::NotAllowed)
            }
        },
    }
}

/// The host of the synthetic lookup URL `http://{domain}/` built to
/// validate a cookie record, if that URL parses at all.
pub open spec fn cookie_context(domain: Seq<char>) -> Option<Seq<char>> {
    match url_parse("http://"@ + domain + "/"@) {
        Some(p) => Some(p.1),
        None => None,
    }
}

/// A record the jar accepts against its own synthetic context URL.
pub open spec fn spec_cookie_ok(e: CookieEntry) -> bool {
    &&& cookie_context(e.domain@) matches Some(h) && spec_domain_matches(h, e.domain@)
    &&& spec_valid_record(e.name@, e.props@)
}

/// The failure reported for the record `e`: `InvalidCookieDomain` with
/// the record's own domain when the synthetic context yields no host
/// the domain matches, `InvalidCookie` with the record's own domain
/// and name when the context is fine but the record is malformed.
pub open spec fn spec_cookie_error(err: FetchError, e: CookieEntry) -> bool {
    match err {
        FetchError::InvalidCookieDomain(d) => d@ == e.domain@ && (match cookie_context(e.domain@) {
            Some(h) => !spec_domain_matches(h, e.domain@),
            None => true,
        }),
        FetchError::InvalidCookie { domain: d, name: n } => d@ == e.domain@ && n@ == e.name@ && (
        cookie_context(e.domain@) matches Some(h) && spec_domain_matches(h, e.domain@))
            && !spec_valid_record(e.name@, e.props@),
        _ => false,
    }
}

/// Validates one cookie to inject and upserts it into the jar, as the
/// request builder does for each record of the options: a synthetic
/// lookup URL is built from the record's domain, and the record is
/// inserted against that URL's host. A domain that yields no such host,
/// or one that host does not match, fails with `InvalidCookieDomain`;
/// a malformed record fails with `InvalidCookie`; either failure
/// leaves the jar unchanged.
pub fn inject_cookie(jar: &mut Jar, domain: &String, name: &String, props: CookieProps) -> (r:
    Result<(), FetchError>)
    requires
        old(jar).wf(),
    ensures
        final(jar).wf(),
        match r {
            Ok(_) => ({
                &&& cookie_context(domain@) matches Some(h) && spec_domain_matches(h, domain@)
                &&& spec_valid_record(name@, props@)
                &&& final(jar)@ == old(jar)@.insert((domain@, name@), props@)
            }),
            Err(e) => final(jar)@ == old(jar)@ && match e {
                FetchError::InvalidCookieDomain(d) => d@ == domain@ && (match cookie_context(
                    domain@,
                ) {
                    Some(h) => !spec_domain_matches(h, domain@),
                    None => true,
                }),
                FetchError::InvalidCookie { domain: d, name: n } => d@ == domain@ && n@ == name@
                    && (cookie_context(domain@) matches Some(h) && spec_domain_matches(h, domain@))
                    && !spec_valid_record(name@, props@),
                _ => false,
            },
        },
{
    let synth = String::from_str("http://").concat(domain.as_str()).concat("/");
    let parsed = match parse_url(synth.as_str()) {
        Some(p) => p,
        None => {
            return Err(FetchError::InvalidCookieDomain(domain.clone()));
        },
    };
    match jar.insert(domain.clone(), name.clone(), props, parsed.host.as_str()) {
        Ok(()) => Ok(()),
        Err(JarError::IncompatibleDomain) => Err(FetchError::InvalidCookieDomain(domain.clone())),
        Err(JarError::MalformedRecord) => Err(
            FetchError::InvalidCookie { domain: domain.clone(), name: name.clone() },
        ),
    }
}

/// The jar map after the first `k` records of `list` are upserted.
pub open spec fn spec_inject_upto(
    m: Map<(Seq<char>, Seq<char>), CookiePropsView>,
    list: Seq<CookieEntry>,
    k: int,
) -> Map<(Seq<char>, Seq<char>), CookiePropsView>
    decreases k,
{
    if k <= 0 {
        m
    } else {
        spec_inject_upto(m, list, k - 1).insert(entry_key(list[k - 1]), list[k - 1].props@)
    }
}

/// What remains to hand to the transport once the client is prepared.
#[derive(Debug)]
pub struct PreparedRequest {
    pub method: Method,
    pub headers: HeaderMap,
    pub body: Vec<u8>,
}

/// Applies the options to the client: every cookie to inject is
/// validated and upserted into the jar in order, aborting on the first
/// failure (records already validated stay; the failing one and later
/// ones never enter); then the redirect mode installs its policy, and
/// the method, headers, and body come back to be attached to the
/// request. All failures here are decided before any network I/O.
#[verifier::loop_isolation(false)]
pub fn prepare_request(client: &mut CookieClient, options: FetchOptions) -> (r: Result<
    PreparedRequest,
    FetchError,
>)
    requires
        old(client).jar.wf(),
    ensures
        final(client).jar.wf(),
        match r {
            Ok(req) => ({
                &&& req.method == options.method
                &&& req.headers == options.headers
                &&& req.body == options.body
                &&& final(client).redirect_policy == options.redirect.spec_policy()
                &&& forall|k: int|
                    0 <= k < options.cookies@.len() ==> spec_cookie_ok(
                        #[trigger] options.cookies@[k],
                    )
                &&& final(client).jar@ == spec_inject_upto(
                    old(client).jar@,
                    options.cookies@,
                    options.cookies@.len() as int,
                )
            }),
            Err(e) => ({
                &&& final(client).redirect_policy == old(client).redirect_policy
                &&& exists|k: int|
                    0 <= k < options.cookies@.len() && !spec_cookie_ok(
                        #[trigger] options.cookies@[k],
                    ) && (forall|j: int| 0 <= j < k ==> spec_cookie_ok(#[trigger] options.cookies@[j]))
                        && final(client).jar@ == spec_inject_upto(
                        old(client).jar@,
                        options.cookies@,
                        k,
                    ) && spec_cookie_error(e, options.cookies@[k])
            }),
        },
{
    let FetchOptions { method, headers, cookies, redirect, body } = options;
    let n = cookies.len();
    let mut i: usize = 0;
    while i < n
        invariant
            i <= n,
            n == cookies@.len(),
            client.jar.wf(),
            client.redirect_policy == old(client).redirect_policy,
            forall|j: int| 0 <= j < i ==> spec_cookie_ok(#[trigger] cookies@[j]),
            client.jar@ == spec_inject_upto(old(client).jar@, cookies@, i as int),
        decreases n - i,
    {
        let e = &cookies[i];
        match inject_cookie(&mut client.jar, &e.domain, &e.name, e.props.duplicate()) {
            Ok(()) => {
                proof {
                    assert(spec_cookie_ok(cookies@[i as int]));
                    assert(client.jar@ == spec_inject_upto(
                        old(client).jar@,
                        cookies@,
                        i as int + 1,
                    ));
                }
            },
            Err(err) => {
                proof {
                    assert(!spec_cookie_ok(cookies@[i as int]));
                    assert(client.jar@ == spec_inject_upto(
                        old(client).jar@,
                        cookies@,
                        i as int,
                    ));
                    assert(spec_cookie_error(err, cookies@[i as int]));
                    assert(exists|k: int|
                        0 <= k < options.cookies@.len() && !spec_cookie_ok(
                            #[trigger] options.cookies@[k],
                        ) && (forall|j: int|
                            0 <= j < k ==> spec_cookie_ok(#[trigger] options.cookies@[j]))
                            && client.jar@ == spec_inject_upto(
                            old(client).jar@,
                            options.cookies@,
                            k,
                        ) && spec_cookie_error(err, options.cookies@[k]));
                }
                return Err(err);
            },
        }
        i = i + 1;
    }
    client.redirect_policy = redirect.policy();
    Ok(PreparedRequest { method, headers, body })
}

/// The structured response handed back across the boundary: the final
/// (possibly redirected) URL, the status, the headers verbatim, the
/// jar's records after the exchange under `[domain][name]`, and the
/// raw body bytes (empty when the body streams through a session).
#[derive(Debug)]
pub struct Response {
    pub url: String,
    pub status: u16,
    pub headers: HeaderMap,
    pub cookies: Vec<DomainCookies>,
    pub body: Vec<u8>,
}

/// Builds the structured response of one exchange: the URL, status,
/// headers, and body are taken as the transport reported them, and the
/// cookie map lists exactly the records the jar holds after the
/// exchange, the ones set by its response and redirect hops included.
pub fn build_response(url: String, status: u16, headers: HeaderMap, jar: &Jar, body: Vec<u8>) -> (r:
    Response)
    requires
        jar.wf(),
    ensures
        r.url == url,
        r.status == status,
        r.headers == headers,
        r.body == body,
        snapshot_matches(r.cookies@, jar@),
{
    let cookies = jar.snapshot();
    Response { url, status, headers, cookies, body }
}

} // verus!
