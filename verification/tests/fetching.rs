use cookie_fetch::client::CookieClientPool;
use cookie_fetch::cookies::{CookieEntry, CookieProps, SameSite};
use cookie_fetch::fetch::{
    build_response, check_target, prepare_request, Error, FetchError, FetchOptions,
};
use cookie_fetch::headers::{HeaderError, HeaderMap};
use cookie_fetch::method::Method;
use cookie_fetch::redirect::{Redirect, RedirectPolicy};
use cookie_fetch::scope::Scope;

fn props(value: &str) -> CookieProps {
    CookieProps {
        value: value.to_string(),
        path: "/".to_string(),
        http_only: Some(false),
        secure: Some(true),
        max_age: None,
        expires: Some(1700000000),
        same_site: Some(SameSite::Unrestricted),
    }
}

fn example_scope() -> Scope {
    Scope::from_patterns(vec!["https://example.com/*".to_string()]).unwrap()
}

#[test]
fn unparseable_targets_are_invalid_urls() {
    let r = check_target(&example_scope(), "not a url");
    assert!(matches!(r, Err(FetchError::InvalidUrl)));
}

#[test]
fn targets_outside_the_scope_are_not_allowed() {
    let r = check_target(&example_scope(), "https://elsewhere.test/");
    assert!(matches!(r, Err(FetchError::NotAllowed)));
}

#[test]
fn bad_cookie_domains_abort_before_any_exchange() {
    let mut pool = CookieClientPool::new();
    let mut client = pool.get();
    let mut options = FetchOptions::new();
    options.cookies.push(CookieEntry {
        domain: "no spaces allowed".to_string(),
        name: "sid".to_string(),
        props: props("x"),
    });
    match prepare_request(&mut client, options) {
        Err(FetchError::InvalidCookieDomain(d)) => assert_eq!(d, "no spaces allowed"),
        _ => panic!("an unusable domain must be refused"),
    }
}

#[test]
fn malformed_cookies_abort_before_any_exchange() {
    let mut pool = CookieClientPool::new();
    let mut client = pool.get();
    let mut options = FetchOptions::new();
    options.cookies.push(CookieEntry {
        domain: "example.com".to_string(),
        name: "bad name".to_string(),
        props: props("x"),
    });
    match prepare_request(&mut client, options) {
        Err(FetchError::InvalidCookie { domain, name }) => {
            assert_eq!(domain, "example.com");
            assert_eq!(name, "bad name");
        },
        _ => panic!("a malformed record must be refused"),
    }
}

#[test]
fn fetch_round_trip_against_the_scope() {
    // the scenario of a plain GET against an allowlisted host
    let scope = example_scope();
    let target = check_target(&scope, "https://example.com/").expect("the target is allowlisted");
    assert_eq!(target.full, "https://example.com/");
    assert_eq!(target.host, "example.com");

    let mut pool = CookieClientPool::new();
    let mut client = pool.get();
    let options = FetchOptions::new();
    let prepared = prepare_request(&mut client, options).expect("the defaults prepare cleanly");
    assert_eq!(prepared.method.as_str(), "GET");
    assert_eq!(prepared.body.len(), 0);
    assert_eq!(client.redirect_policy, RedirectPolicy::Follow);

    // the exchange answers 200 with one Set-Cookie, which the
    // transport's cookie handling records in the jar
    client
        .jar
        .insert("example.com".to_string(), "sid".to_string(), props("abc"), "example.com")
        .unwrap();
    let mut headers = HeaderMap::new();
    headers.append("content-type".to_string(), "text/html".to_string()).unwrap();

    let response = build_response(
        "https://example.com/".to_string(),
        200,
        headers,
        &client.jar,
        b"<html></html>".to_vec(),
    );
    assert_eq!(response.status, 200);
    assert_eq!(response.url, "https://example.com/");
    assert_eq!(
        response.headers.get_all("content-type").unwrap(),
        &vec!["text/html".to_string()]
    );
    let group = response
        .cookies
        .iter()
        .find(|g| g.domain == "example.com")
        .expect("the set cookie appears under its domain");
    let (name, p) = group
        .cookies
        .iter()
        .find(|(n, _)| n.as_str() == "sid")
        .expect("the set cookie appears under its name");
    assert_eq!(name.as_str(), "sid");
    assert_eq!(p.value, "abc");
    assert_eq!(p.expires, Some(1700000000));

    pool.release(client);
}

#[test]
fn injected_cookies_reach_the_snapshot() {
    let mut pool = CookieClientPool::new();
    let mut client = pool.get();
    let mut options = FetchOptions::new();
    options.method = Method::from_name("POST").unwrap();
    options.redirect = Redirect::Limit { limit: 3 };
    options.cookies.push(CookieEntry {
        domain: "example.com".to_string(),
        name: "session".to_string(),
        props: props("zzz"),
    });
    let prepared = prepare_request(&mut client, options).unwrap();
    assert_eq!(prepared.method.as_str(), "POST");
    assert_eq!(client.redirect_policy, RedirectPolicy::Limited(3));
    let snap = client.jar.snapshot();
    assert_eq!(snap.len(), 1);
    assert_eq!(snap[0].domain, "example.com");
    assert_eq!(snap[0].cookies[0].0, "session");
    assert_eq!(snap[0].cookies[0].1.value, "zzz");
}

#[test]
fn headers_keep_names_and_value_order() {
    let mut map = HeaderMap::new();
    map.append("k".to_string(), "v0".to_string()).unwrap();
    map.append("k".to_string(), "v1".to_string()).unwrap();
    map.append("k".to_string(), "v2".to_string()).unwrap();
    map.append("other".to_string(), "x".to_string()).unwrap();
    assert_eq!(map.len(), 2);
    assert_eq!(
        map.get_all("k").unwrap(),
        &vec!["v0".to_string(), "v1".to_string(), "v2".to_string()]
    );
    assert!(map.get_all("missing").is_none());
    assert_eq!(
        map.append("bad name".to_string(), "v".to_string()),
        Err(HeaderError::InvalidName)
    );
    assert_eq!(
        map.append("k".to_string(), "bad\u{1}value".to_string()),
        Err(HeaderError::InvalidValue)
    );
}

#[test]
fn methods_are_validated_tokens() {
    assert_eq!(Method::from_name("PATCH").unwrap().as_str(), "PATCH");
    assert!(Method::from_name("").is_err());
    assert!(Method::from_name("GE T").is_err());
    assert_eq!(Method::get().as_str(), "GET");
}

#[test]
fn errors_describe_themselves() {
    assert_eq!(
        FetchError::NotAllowed.message(),
        "url not allowed on the configured scope"
    );
    assert_eq!(FetchError::InvalidUrl.message(), "invalid url");
    assert_eq!(
        FetchError::InvalidCookieDomain("x.test".to_string()).message(),
        "invalid cookie domain `x.test`"
    );
    assert_eq!(
        FetchError::InvalidCookie { domain: "x.test".to_string(), name: "n".to_string() }
            .message(),
        "invalid cookie `n` of domain `x.test`"
    );
    let e = Error::from_std_error("boom");
    assert_eq!(e.url, None);
    assert_eq!(e.message, "boom");
}
