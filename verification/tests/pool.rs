use cookie_fetch::client::{CookieClient, CookieClientPool};
use cookie_fetch::cookies::{CookieProps, SameSite};
use cookie_fetch::redirect::{
    default_redirect_policy, Redirect, RedirectAction, RedirectPolicy, DEFAULT_REDIRECT_HOPS,
};

fn props() -> CookieProps {
    CookieProps {
        value: "v".to_string(),
        path: "/".to_string(),
        http_only: None,
        secure: None,
        max_age: None,
        expires: None,
        same_site: Some(SameSite::Strict),
    }
}

#[test]
fn acquired_clients_are_always_reset() {
    let mut pool = CookieClientPool::new();
    let mut client = pool.get();
    client
        .jar
        .insert("example.com".to_string(), "sid".to_string(), props(), "example.com")
        .unwrap();
    client.redirect_policy = RedirectPolicy::Follow;
    assert_eq!(client.jar.count(), 1);
    pool.release(client);
    assert_eq!(pool.idle_count(), 1);

    let next = pool.get();
    assert_eq!(next.jar.count(), 0);
    assert_eq!(next.jar.snapshot().len(), 0);
    assert_eq!(next.redirect_policy, RedirectPolicy::Limited(DEFAULT_REDIRECT_HOPS));
    assert_eq!(pool.idle_count(), 0);
}

#[test]
fn fresh_clients_match_the_default() {
    let c = CookieClient::new();
    assert_eq!(c.jar.count(), 0);
    assert_eq!(c.redirect_policy, default_redirect_policy());
    assert_eq!(default_redirect_policy(), RedirectPolicy::Limited(10));
}

#[test]
fn exhausted_hop_budget_stops_at_the_first_redirect() {
    let mut p = Redirect::Limit { limit: 0 }.policy();
    assert_eq!(p.check(), RedirectAction::Stop);
    assert_eq!(p, RedirectPolicy::Limited(0));
    let mut m = Redirect::Manual.policy();
    assert_eq!(m.check(), RedirectAction::Stop);
}

#[test]
fn limited_policies_count_their_hops() {
    let mut p = RedirectPolicy::limited(2);
    assert_eq!(p.check(), RedirectAction::Follow);
    assert_eq!(p.check(), RedirectAction::Follow);
    assert_eq!(p.check(), RedirectAction::Stop);
    assert_eq!(p.check(), RedirectAction::Stop);
    let mut f = RedirectPolicy::follow();
    assert_eq!(f.check(), RedirectAction::Follow);
    assert_eq!(f, RedirectPolicy::Follow);
}

#[test]
fn redirect_wire_labels_decode() {
    assert_eq!(Redirect::from_label("follow"), Some(Redirect::Follow));
    assert_eq!(Redirect::from_label("manual"), Some(Redirect::Manual));
    assert_eq!(Redirect::from_label("Follow"), None);
    assert_eq!(Redirect::from_label(""), None);
}
