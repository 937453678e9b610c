use cookie_fetch::cookies::{CookieProps, DomainCookies, Jar, JarError, SameSite};

fn props(value: &str) -> CookieProps {
    CookieProps {
        value: value.to_string(),
        path: "/".to_string(),
        http_only: Some(true),
        secure: Some(false),
        max_age: Some(3600),
        expires: Some(1700000000),
        same_site: Some(SameSite::Lax),
    }
}

fn lookup<'a>(groups: &'a [DomainCookies], domain: &str, name: &str) -> Option<&'a CookieProps> {
    for g in groups {
        if g.domain == domain {
            for (n, p) in &g.cookies {
                if n.as_str() == name {
                    return Some(p);
                }
            }
            return None;
        }
    }
    None
}

#[test]
fn insert_and_snapshot_round_trip() {
    let mut jar = Jar::new();
    let r = jar.insert(
        "example.com".to_string(),
        "sid".to_string(),
        props("abc123"),
        "example.com",
    );
    assert!(r.is_ok());
    let snap = jar.snapshot();
    let p = lookup(&snap, "example.com", "sid").expect("record must be under [domain][name]");
    assert_eq!(p.value, "abc123");
    assert_eq!(p.path, "/");
    assert_eq!(p.http_only, Some(true));
    assert_eq!(p.secure, Some(false));
    assert_eq!(p.max_age, Some(3600));
    assert_eq!(p.expires, Some(1700000000));
    assert_eq!(p.same_site, Some(SameSite::Lax));
}

#[test]
fn incompatible_domain_leaves_jar_unchanged() {
    let mut jar = Jar::new();
    let before = jar.snapshot().len();
    let r = jar.insert(
        "other.com".to_string(),
        "sid".to_string(),
        props("abc"),
        "example.com",
    );
    assert_eq!(r, Err(JarError::IncompatibleDomain));
    assert_eq!(jar.snapshot().len(), before);
    assert_eq!(jar.count(), 0);
}

#[test]
fn subdomain_host_matches_parent_domain() {
    let mut jar = Jar::new();
    let r = jar.insert(
        "example.com".to_string(),
        "sid".to_string(),
        props("abc"),
        "login.example.com",
    );
    assert!(r.is_ok());
    // a mere suffix without the dot boundary does not match
    let r2 = jar.insert(
        "ample.com".to_string(),
        "sid".to_string(),
        props("abc"),
        "example.com",
    );
    assert_eq!(r2, Err(JarError::IncompatibleDomain));
}

#[test]
fn malformed_record_is_rejected() {
    let mut jar = Jar::new();
    let r = jar.insert(
        "example.com".to_string(),
        "bad name".to_string(),
        props("abc"),
        "example.com",
    );
    assert_eq!(r, Err(JarError::MalformedRecord));
    let mut bad_value = props("a;b");
    bad_value.value = "a;b".to_string();
    let r2 = jar.insert(
        "example.com".to_string(),
        "sid".to_string(),
        bad_value,
        "example.com",
    );
    assert_eq!(r2, Err(JarError::MalformedRecord));
    assert_eq!(jar.count(), 0);
}

#[test]
fn upsert_overwrites_by_domain_and_name() {
    let mut jar = Jar::new();
    jar.insert("example.com".to_string(), "sid".to_string(), props("one"), "example.com")
        .unwrap();
    jar.insert("example.com".to_string(), "sid".to_string(), props("two"), "example.com")
        .unwrap();
    assert_eq!(jar.count(), 1);
    let snap = jar.snapshot();
    assert_eq!(lookup(&snap, "example.com", "sid").unwrap().value, "two");
}

#[test]
fn clear_empties_the_jar() {
    let mut jar = Jar::new();
    jar.insert("example.com".to_string(), "a".to_string(), props("1"), "example.com")
        .unwrap();
    jar.insert("example.org".to_string(), "b".to_string(), props("2"), "example.org")
        .unwrap();
    assert_eq!(jar.count(), 2);
    jar.clear();
    assert_eq!(jar.count(), 0);
    assert_eq!(jar.snapshot().len(), 0);
}

#[test]
fn same_site_labels_round_trip() {
    assert_eq!(SameSite::Strict.label(), "Strict");
    assert_eq!(SameSite::Lax.label(), "Lax");
    assert_eq!(SameSite::Unrestricted.label(), "None");
    for m in [SameSite::Strict, SameSite::Lax, SameSite::Unrestricted] {
        assert_eq!(SameSite::from_label(m.label()), Some(m));
    }
    assert_eq!(SameSite::from_label("strict"), None);
}
