//! Cookie records and the per-client jar: insertion validates the
//! record against the context URL's host and upserts by (domain, name);
//! a snapshot lists every record with its full attributes.

use vstd::prelude::*;

use crate::text::{spec_token_char, str_eq, token_char};

verus! {

/// The same-site mode of a cookie. `Unrestricted` is written `None`
/// on the wire.
#[derive(Debug, Clone, Copy, PartialEq, Eq, Structural)]
pub enum SameSite {
    Strict,
    Lax,
    Unrestricted,
}

impl SameSite {
    /// The wire label of this mode.
    pub open spec fn spec_label(self) -> Seq<char> {
        match self {
            SameSite::Strict => "Strict"@,
            SameSite::Lax => "Lax"@,
            SameSite::Unrestricted => "None"@,
        }
    }

    /// The mode a wire label denotes, if any.
    pub open spec fn spec_from_label(s: Seq<char>) -> Option<SameSite> {
        if s == "Strict"@ {
            Some(SameSite::Strict)
        } else if s == "Lax"@ {
            Some(SameSite::Lax)
        } else if s == "None"@ {
            Some(SameSite::Unrestricted)
        } else {
            None
        }
    }

    /// Writes the mode as its wire label.
    pub fn label(&self) -> (r: &'static str)
        ensures
            r@ == self.spec_label(),
    {
        match self {
            SameSite::Strict => "Strict",
            SameSite::Lax => "Lax",
            SameSite::Unrestricted => "None",
        }
    }

    /// Reads a mode back from its wire label.
    pub fn from_label(s: &str) -> (r: Option<SameSite>)
        ensures
            r == Self::spec_from_label(s@),
    {
        if str_eq(s, "Strict") {
            Some(SameSite::Strict)
        } else if str_eq(s, "Lax") {
            Some(SameSite::Lax)
        } else if str_eq(s, "None") {
            Some(SameSite::Unrestricted)
        } else {
            None
        }
    }
}

/// The three labels are distinct, so writing a mode and reading it
/// back yields the mode itself.
pub proof fn lemma_same_site_label_round_trip(m: SameSite)
    ensures
        SameSite::spec_from_label(m.spec_label()) == Some(m),
{
    reveal_strlit("Strict");
    reveal_strlit("Lax");
    reveal_strlit("None");
    assert("Strict"@.len() == 6);
    assert("Lax"@.len() == 3);
    assert("None"@.len() == 4);
}

/// Everything a cookie record carries besides its domain and name.
/// Durations and timestamps are held in seconds: `max_age` as a span,
/// `expires` as seconds since the Unix epoch.
#[derive(Debug)]
pub struct CookieProps {
    pub value: String,
    pub path: String,
    pub http_only: Option<bool>,
    pub secure: Option<bool>,
    pub max_age: Option<i64>,
    pub expires: Option<i64>,
    pub same_site: Option<SameSite>,
}

/// The mathematical value of a [`CookieProps`].
#[verifier::ext_equal]
pub struct CookiePropsView {
    pub value: Seq<char>,
    pub path: Seq<char>,
    pub http_only: Option<bool>,
    pub secure: Option<bool>,
    pub max_age: Option<i64>,
    pub expires: Option<i64>,
    pub same_site: Option<SameSite>,
}

impl View for CookieProps {
    type V = CookiePropsView;

    open spec fn view(&self) -> CookiePropsView {
        CookiePropsView {
            value: self.value@,
            path: self.path@,
            http_only: self.http_only,
            secure: self.secure,
            max_age: self.max_age,
            expires: self.expires,
            same_site: self.same_site,
        }
    }
}

impl CookieProps {
    /// An identical record.
    pub fn duplicate(&self) -> (r: CookieProps)
        ensures
            r@ == self@,
    {
        CookieProps {
            value: self.value.clone(),
            path: self.path.clone(),
            http_only: self.http_only,
            secure: self.secure,
            max_age: self.max_age,
            expires: self.expires,
            same_site: self.same_site,
        }
    }
}

/// One record as the jar holds it, addressable by (domain, name).
#[derive(Debug)]
pub struct CookieEntry {
    pub domain: String,
    pub name: String,
    pub props: CookieProps,
}

/// The address of an entry within a jar.
pub open spec fn entry_key(e: CookieEntry) -> (Seq<char>, Seq<char>) {
    (e.domain@, e.name@)
}

/// `host` domain-matches the cookie domain `domain`: they are equal,
/// or `host` ends in `.` followed by `domain`.
pub open spec fn spec_domain_matches(host: Seq<char>, domain: Seq<char>) -> bool {
    domain.len() > 0 && (host == domain || (host.len() > domain.len() && host.subrange(
        host.len() - domain.len(),
        host.len() as int,
    ) == domain && host[host.len() - domain.len() - 1] == '.'))
}

/// Decides [`spec_domain_matches`].
pub fn domain_matches(host: &str, domain: &str) -> (r: bool)
    ensures
        r == spec_domain_matches(host@, domain@),
{
    let hlen = host.unicode_len();
    let dlen = domain.unicode_len();
    if dlen == 0 {
        return false;
    }
    if hlen == dlen {
        return str_eq(host, domain);
    }
    if hlen < dlen {
        return false;
    }
    let tail = host.substring_char(hlen - dlen, hlen);
    host.get_char(hlen - dlen - 1) == '.' && str_eq(tail, domain)
}

/// A valid cookie name: a non-empty HTTP token.
pub open spec fn spec_valid_cookie_name(s: Seq<char>) -> bool {
    s.len() > 0 && forall|i: int| 0 <= i < s.len() ==> spec_token_char(#[trigger] s[i])
}

/// A character allowed in a cookie value: a printable ASCII character
/// other than the double quote, comma, semicolon, and backslash.
pub open spec fn spec_cookie_value_char(c: char) -> bool {
    let u = c as u32;
    33 <= u <= 126 && u != 34 && u != 44 && u != 59 && u != 92
}

/// A valid cookie value (possibly empty).
pub open spec fn spec_valid_cookie_value(s: Seq<char>) -> bool {
    forall|i: int| 0 <= i < s.len() ==> spec_cookie_value_char(#[trigger] s[i])
}

/// A character allowed in a cookie path: printable ASCII other than
/// the semicolon.
pub open spec fn spec_cookie_path_char(c: char) -> bool {
    let u = c as u32;
    32 <= u <= 126 && u != 59
}

/// A valid cookie path (possibly empty; the jar keeps it verbatim).
pub open spec fn spec_valid_cookie_path(s: Seq<char>) -> bool {
    forall|i: int| 0 <= i < s.len() ==> spec_cookie_path_char(#[trigger] s[i])
}

/// A record the jar accepts: valid name, value, and path.
pub open spec fn spec_valid_record(name: Seq<char>, props: CookiePropsView) -> bool {
    spec_valid_cookie_name(name) && spec_valid_cookie_value(props.value)
        && spec_valid_cookie_path(props.path)
}

fn valid_cookie_name(s: &str) -> (r: bool)
    ensures
        r == spec_valid_cookie_name(s@),
{
    let len = s.unicode_len();
    if len == 0 {
        return false;
    }
    let mut i: usize = 0;
    while i < len
        invariant
            i <= len,
            len == s@.len(),
            forall|j: int| 0 <= j < i ==> spec_token_char(#[trigger] s@[j]),
        decreases len - i,
    {
        if !token_char(s.get_char(i)) {
            return false;
        }
        i = i + 1;
    }
    true
}

fn valid_cookie_value(s: &str) -> (r: bool)
    ensures
        r == spec_valid_cookie_value(s@),
{
    let len = s.unicode_len();
    let mut i: usize = 0;
    while i < len
        invariant
            i <= len,
            len == s@.len(),
            forall|j: int| 0 <= j < i ==> spec_cookie_value_char(#[trigger] s@[j]),
        decreases len - i,
    {
        let u = s.get_char(i) as u32;
        if !(33 <= u && u <= 126 && u != 34 && u != 44 && u != 59 && u != 92) {
            return false;
        }
        i = i + 1;
    }
    true
}

fn valid_cookie_path(s: &str) -> (r: bool)
    ensures
        r == spec_valid_cookie_path(s@),
{
    let len = s.unicode_len();
    let mut i: usize = 0;
    while i < len
        invariant
            i <= len,
            len == s@.len(),
            forall|j: int| 0 <= j < i ==> spec_cookie_path_char(#[trigger] s@[j]),
        decreases len - i,
    {
        let u = s.get_char(i) as u32;
        if !(32 <= u && u <= 126 && u != 59) {
            return false;
        }
        i = i + 1;
    }
    true
}

/// Why the jar refused a record.
#[derive(Debug, Clone, Copy, PartialEq, Eq, Structural)]
pub enum JarError {
    /// The record's domain is incompatible with the context URL's host.
    IncompatibleDomain,
    /// The record's name, value, or path is malformed.
    MalformedRecord,
}

/// No two entries share an address.
pub open spec fn unique_keys(s: Seq<CookieEntry>) -> bool {
    forall|i: int, j: int|
        0 <= i < j < s.len() ==> (#[trigger] entry_key(s[i])) != (#[trigger] entry_key(s[j]))
}

/// The map an entry list denotes: later entries overwrite earlier ones
/// with the same address.
pub open spec fn map_of(s: Seq<CookieEntry>) -> Map<(Seq<char>, Seq<char>), CookiePropsView>
    decreases s.len(),
{
    if s.len() == 0 {
        Map::empty()
    } else {
        map_of(s.drop_last()).insert(entry_key(s.last()), s.last().props@)
    }
}

/// An address is in the map exactly when some entry carries it.
pub proof fn lemma_map_of_contains(s: Seq<CookieEntry>, k: (Seq<char>, Seq<char>))
    ensures
        map_of(s).contains_key(k) <==> exists|i: int|
            0 <= i < s.len() && entry_key(#[trigger] s[i]) == k,
    decreases s.len(),
{
    if s.len() > 0 {
        lemma_map_of_contains(s.drop_last(), k);
        if entry_key(s.last()) == k {
            assert(entry_key(s[s.len() - 1]) == k);
        } else {
            if exists|i: int| 0 <= i < s.len() && entry_key(#[trigger] s[i]) == k {
                let i = choose|i: int| 0 <= i < s.len() && entry_key(#[trigger] s[i]) == k;
                assert(entry_key(s.drop_last()[i]) == k);
            }
        }
    }
}

/// Replacing the entry at `i` by one with the same address is, on the
/// map, an overwrite of that address.
proof fn lemma_map_of_update(s: Seq<CookieEntry>, i: int, e: CookieEntry)
    requires
        unique_keys(s),
        0 <= i < s.len(),
        entry_key(e) == entry_key(s[i]),
    ensures
        map_of(s.update(i, e)) == map_of(s).insert(entry_key(e), e.props@),
    decreases s.len(),
{
    if i == s.len() - 1 {
        assert(s.update(i, e).drop_last() =~= s.drop_last());
        assert(s.update(i, e).last() == e);
        assert(map_of(s.drop_last()).insert(entry_key(e), e.props@) =~= map_of(s).insert(
            entry_key(e),
            e.props@,
        ));
    } else {
        assert(unique_keys(s.drop_last()));
        assert(s.update(i, e).drop_last() =~= s.drop_last().update(i, e));
        assert(s.drop_last()[i] == s[i]);
        lemma_map_of_update(s.drop_last(), i, e);
        assert(s.update(i, e).last() == s.last());
        assert(entry_key(e) != entry_key(s.last()));
        assert(map_of(s.drop_last()).insert(entry_key(e), e.props@).insert(
            entry_key(s.last()),
            s.last().props@,
        ) =~= map_of(s).insert(entry_key(e), e.props@));
    }
}

/// The per-client cookie jar: a collection of records addressable by
/// (domain, name). Its value is the map those addresses denote.
#[derive(Debug)]
pub struct Jar {
    entries: Vec<CookieEntry>,
}

impl View for Jar {
    type V = Map<(Seq<char>, Seq<char>), CookiePropsView>;

    closed spec fn view(&self) -> Map<(Seq<char>, Seq<char>), CookiePropsView> {
        map_of(self.entries@)
    }
}

impl Jar {
    /// The jar keeps one entry per address.
    pub closed spec fn wf(self) -> bool {
        unique_keys(self.entries@)
    }

    /// An empty jar.
    pub fn new() -> (r: Self)
        ensures
            r@ == Map::<(Seq<char>, Seq<char>), CookiePropsView>::empty(),
            r.wf(),
    {
        Jar { entries: Vec::new() }
    }

    /// Removes every record.
    pub fn clear(&mut self)
        ensures
            final(self)@ == Map::<(Seq<char>, Seq<char>), CookiePropsView>::empty(),
            final(self).wf(),
    {
        self.entries.clear();
    }

    /// How many records the jar holds.
    pub fn count(&self) -> (r: usize)
        requires
            self.wf(),
        ensures
            r == self@.dom().len(),
    {
        proof {
            lemma_map_of_len(self.entries@);
        }
        self.entries.len()
    }

    /// Validates a record against the context URL's host and upserts
    /// it by (domain, name). A domain the host does not match is
    /// refused as `IncompatibleDomain`, a malformed name, value, or
    /// path as `MalformedRecord`; either way the jar is left unchanged.
    /// On success the record overwrites any record of the same address.
    pub fn insert(
        &mut self,
        domain: String,
        name: String,
        props: CookieProps,
        context_host: &str,
    ) -> (r: Result<(), JarError>)
        requires
            old(self).wf(),
        ensures
            final(self).wf(),
            !spec_domain_matches(context_host@, domain@) ==> r == Err::<(), JarError>(
                JarError::IncompatibleDomain,
            ) && final(self)@ == old(self)@,
            spec_domain_matches(context_host@, domain@) && !spec_valid_record(name@, props@)
                ==> r == Err::<(), JarError>(JarError::MalformedRecord) && final(self)@ == old(
                self,
            )@,
            spec_domain_matches(context_host@, domain@) && spec_valid_record(name@, props@) ==> r
                == Ok::<(), JarError>(()) && final(self)@ == old(self)@.insert(
                (domain@, name@),
                props@,
            ),
    {
        if !domain_matches(context_host, domain.as_str()) {
            return Err(JarError::IncompatibleDomain);
        }
        if !(valid_cookie_name(name.as_str()) && valid_cookie_value(props.value.as_str())
            && valid_cookie_path(props.path.as_str())) {
            return Err(JarError::MalformedRecord);
        }
        let n = self.entries.len();
        let ghost key = (domain@, name@);
        let mut i: usize = 0;
        while i < n
            invariant
                i <= n,
                n == self.entries@.len(),
                self.entries@ == old(self).entries@,
                unique_keys(self.entries@),
                key == (domain@, name@),
                spec_domain_matches(context_host@, domain@),
                spec_valid_record(name@, props@),
                forall|j: int| 0 <= j < i ==> entry_key(#[trigger] self.entries@[j]) != key,
            decreases n - i,
        {
            let e = &self.entries[i];
            let same_domain = str_eq(e.domain.as_str(), domain.as_str());
            let same_name = str_eq(e.name.as_str(), name.as_str());
            if same_domain && same_name {
                let ghost prev = self.entries@;
                let entry = CookieEntry { domain, name, props };
                self.entries.set(i, entry);
                proof {
                    lemma_map_of_update(prev, i as int, self.entries@[i as int]);
                    assert forall|a: int, b: int| 0 <= a < b < self.entries@.len() implies (
                    #[trigger] entry_key(self.entries@[a])) != (#[trigger] entry_key(
                        self.entries@[b],
                    )) by {
                        assert(entry_key(prev[a]) != entry_key(prev[b]));
                    }
                }
                return Ok(());
            }
            proof {
                if entry_key(self.entries@[i as int]) == key {
                    assert(self.entries@[i as int].domain@ == domain@);
                    assert(self.entries@[i as int].name@ == name@);
                }
            }
            i = i + 1;
        }
        let ghost prev = self.entries@;
        let entry = CookieEntry { domain, name, props };
        self.entries.push(entry);
        proof {
            assert(self.entries@.drop_last() =~= prev);
            assert forall|a: int, b: int| 0 <= a < b < self.entries@.len() implies (
            #[trigger] entry_key(self.entries@[a])) != (#[trigger] entry_key(
                self.entries@[b],
            )) by {
                if b < prev.len() {
                    assert(entry_key(prev[a]) != entry_key(prev[b]));
                } else {
                    assert(entry_key(prev[a]) != key);
                }
            }
        }
        Ok(())
    }
}

/// With unique addresses, the map is exactly as large as the list.
proof fn lemma_map_of_len(s: Seq<CookieEntry>)
    requires
        unique_keys(s),
    ensures
        map_of(s).dom().finite(),
        map_of(s).dom().len() == s.len(),
    decreases s.len(),
{
    if s.len() > 0 {
        assert(unique_keys(s.drop_last()));
        lemma_map_of_len(s.drop_last());
        lemma_map_of_contains(s.drop_last(), entry_key(s.last()));
        assert(!map_of(s.drop_last()).contains_key(entry_key(s.last())));
        vstd::set::axiom_set_insert_len(map_of(s.drop_last()).dom(), entry_key(s.last()));
        assert(map_of(s).dom() =~= map_of(s.drop_last()).dom().insert(entry_key(s.last())));
    }
}

} // verus!

verus! {

/// All records of one domain in a snapshot, keyed by name.
#[derive(Debug)]
pub struct DomainCookies {
    pub domain: String,
    pub cookies: Vec<(String, CookieProps)>,
}

/// The record under `n` in one domain's list, reading pairs in order.
pub open spec fn pairs_lookup(ps: Seq<(String, CookieProps)>, n: Seq<char>) -> Option<
    CookiePropsView,
>
    decreases ps.len(),
{
    if ps.len() == 0 {
        None
    } else if ps[0].0@ == n {
        Some(ps[0].1@)
    } else {
        pairs_lookup(ps.drop_first(), n)
    }
}

/// The record under `[d][n]` in a snapshot, reading groups in order.
pub open spec fn groups_lookup(gs: Seq<DomainCookies>, d: Seq<char>, n: Seq<char>) -> Option<
    CookiePropsView,
>
    decreases gs.len(),
{
    if gs.len() == 0 {
        None
    } else if gs[0].domain@ == d {
        pairs_lookup(gs[0].cookies@, n)
    } else {
        groups_lookup(gs.drop_first(), d, n)
    }
}

/// The snapshot lists exactly the records of the jar map `m`, each
/// with identical attributes.
pub open spec fn snapshot_matches(
    gs: Seq<DomainCookies>,
    m: Map<(Seq<char>, Seq<char>), CookiePropsView>,
) -> bool {
    forall|d: Seq<char>, n: Seq<char>|
        #[trigger] groups_lookup(gs, d, n) == (if m.contains_key((d, n)) {
            Some(m[(d, n)])
        } else {
            None::<CookiePropsView>
        })
}

/// Appending a pair only fills in a name that was still missing.
proof fn lemma_pairs_lookup_push(ps: Seq<(String, CookieProps)>, p: (String, CookieProps), n: Seq<char>)
    ensures
        pairs_lookup(ps, n) is Some ==> pairs_lookup(ps.push(p), n) == pairs_lookup(ps, n),
        pairs_lookup(ps, n) is None && p.0@ == n ==> pairs_lookup(ps.push(p), n) == Some(p.1@),
        pairs_lookup(ps, n) is None && p.0@ != n ==> pairs_lookup(ps.push(p), n) is None,
    decreases ps.len(),
{
    if ps.len() == 0 {
        assert(ps.push(p)[ps.len() as int] == p);
        assert(ps.push(p).drop_first() =~= Seq::<(String, CookieProps)>::empty());
        assert(pairs_lookup(Seq::<(String, CookieProps)>::empty(), n) is None);
        if p.0@ != n {
            assert(pairs_lookup(ps.push(p), n) == pairs_lookup(ps.push(p).drop_first(), n));
        }
    } else {
        assert(ps.push(p)[0] == ps[0]);
        assert(ps.push(p).drop_first() =~= ps.drop_first().push(p));
        lemma_pairs_lookup_push(ps.drop_first(), p, n);
        if ps[0].0@ != n && pairs_lookup(ps, n) is None && p.0@ != n {
            assert(pairs_lookup(ps.drop_first(), n) is None);
            assert(pairs_lookup(ps.push(p), n) == pairs_lookup(ps.drop_first().push(p), n));
        }
    }
}

/// A name missing from every group's domain is missing from the lookup.
proof fn lemma_groups_lookup_miss(gs: Seq<DomainCookies>, d: Seq<char>, n: Seq<char>)
    requires
        forall|g: int| 0 <= g < gs.len() ==> (#[trigger] gs[g].domain@) != d,
    ensures
        groups_lookup(gs, d, n) is None,
    decreases gs.len(),
{
    if gs.len() > 0 {
        assert(gs[0].domain@ != d);
        assert(forall|g: int|
            0 <= g < gs.drop_first().len() ==> (#[trigger] gs.drop_first()[g].domain@) != d);
        lemma_groups_lookup_miss(gs.drop_first(), d, n);
    }
}

/// The first group of a domain answers for it.
proof fn lemma_groups_lookup_hit(gs: Seq<DomainCookies>, g: int, n: Seq<char>)
    requires
        0 <= g < gs.len(),
        forall|h: int| 0 <= h < g ==> (#[trigger] gs[h].domain@) != gs[g].domain@,
    ensures
        groups_lookup(gs, gs[g].domain@, n) == pairs_lookup(gs[g].cookies@, n),
    decreases g,
{
    if g > 0 {
        assert(gs.drop_first()[g - 1] == gs[g]);
        assert(forall|h: int|
            0 <= h < g - 1 ==> (#[trigger] gs.drop_first()[h].domain@) != gs[g].domain@) by {
            assert(forall|h: int| 0 <= h < g - 1 ==> gs.drop_first()[h] == gs[h + 1]);
        }
        lemma_groups_lookup_hit(gs.drop_first(), g - 1, n);
    }
}

/// The record of address `(d, n)` among the entries of `s`, if any.
pub open spec fn domain_lookup(s: Seq<CookieEntry>, d: Seq<char>, n: Seq<char>) -> Option<
    CookiePropsView,
> {
    if map_of(s).contains_key((d, n)) {
        Some(map_of(s)[(d, n)])
    } else {
        None
    }
}

/// Cookie round trip: after inserting a record with attributes `p` for
/// domain `d` and name `n` into a jar holding `m`, a snapshot of the
/// jar carries exactly `p` under `[d][n]`.
pub proof fn lemma_cookie_round_trip(
    m: Map<(Seq<char>, Seq<char>), CookiePropsView>,
    gs: Seq<DomainCookies>,
    d: Seq<char>,
    n: Seq<char>,
    p: CookiePropsView,
)
    requires
        snapshot_matches(gs, m.insert((d, n), p)),
    ensures
        groups_lookup(gs, d, n) == Some(p),
{
    assert(m.insert((d, n), p).contains_key((d, n)));
}

} // verus!

verus! {

/// Whether one of the first `upto` entries carries the domain `dom`.
fn domain_seen(entries: &Vec<CookieEntry>, upto: usize, dom: &String) -> (r: bool)
    requires
        upto <= entries@.len(),
    ensures
        r == exists|t: int| 0 <= t < upto && (#[trigger] entries@[t].domain@) == dom@,
{
    let mut j: usize = 0;
    let mut seen = false;
    while j < upto
        invariant
            j <= upto,
            upto <= entries@.len(),
            seen == exists|t: int| 0 <= t < j && (#[trigger] entries@[t].domain@) == dom@,
        decreases upto - j,
    {
        if str_eq(entries[j].domain.as_str(), dom.as_str()) {
            seen = true;
            proof {
                assert(entries@[j as int].domain@ == dom@);
            }
        }
        j = j + 1;
    }
    seen
}

/// Collects every record of domain `dom`, in record order.
fn collect_domain(entries: &Vec<CookieEntry>, dom: &String) -> (r: Vec<(String, CookieProps)>)
    requires
        unique_keys(entries@),
    ensures
        forall|nm: Seq<char>|
            #[trigger] pairs_lookup(r@, nm) == domain_lookup(entries@, dom@, nm),
{
    let n = entries.len();
    let mut pairs: Vec<(String, CookieProps)> = Vec::new();
    let mut t: usize = 0;
    while t < n
        invariant
            t <= n,
            n == entries@.len(),
            unique_keys(entries@),
            forall|nm: Seq<char>|
                #[trigger] pairs_lookup(pairs@, nm) == domain_lookup(
                    entries@.take(t as int),
                    dom@,
                    nm,
                ),
        decreases n - t,
    {
        let ghost st = entries@.take(t as int);
        let ghost st1 = entries@.take(t as int + 1);
        proof {
            assert(st1.drop_last() =~= st);
            assert(st1.last() == entries@[t as int]);
        }
        let e2 = &entries[t];
        if str_eq(e2.domain.as_str(), dom.as_str()) {
            let ghost prev_pairs = pairs@;
            proof {
                // the address of this entry is new to the prefix map
                lemma_map_of_contains(st, entry_key(entries@[t as int]));
                if map_of(st).contains_key(entry_key(entries@[t as int])) {
                    let u = choose|u: int|
                        0 <= u < st.len() && entry_key(#[trigger] st[u]) == entry_key(
                            entries@[t as int],
                        );
                    assert(entry_key(entries@[u]) == entry_key(entries@[t as int]));
                    assert(false);
                }
            }
            pairs.push((e2.name.clone(), e2.props.duplicate()));
            proof {
                assert forall|nm: Seq<char>|
                    #[trigger] pairs_lookup(pairs@, nm) == domain_lookup(st1, dom@, nm) by {
                    assert(pairs@ == prev_pairs.push(pairs@.last()));
                    lemma_pairs_lookup_push(prev_pairs, pairs@.last(), nm);
                    assert(pairs@.last().0@ == entries@[t as int].name@);
                    assert(pairs@.last().1@ == entries@[t as int].props@);
                    assert(map_of(st1) == map_of(st).insert(
                        entry_key(entries@[t as int]),
                        entries@[t as int].props@,
                    ));
                }
            }
        } else {
            proof {
                assert forall|nm: Seq<char>|
                    #[trigger] pairs_lookup(pairs@, nm) == domain_lookup(st1, dom@, nm) by {
                    assert((dom@, nm) != entry_key(entries@[t as int]));
                }
            }
        }
        t = t + 1;
    }
    proof {
        assert(entries@.take(n as int) =~= entries@);
    }
    pairs
}

impl Jar {
    /// A full snapshot: every record of the jar, grouped by domain and
    /// keyed by name, each with its complete attributes. Domains appear
    /// in the order of their first record, names in record order.
    pub fn snapshot(&self) -> (r: Vec<DomainCookies>)
        requires
            self.wf(),
        ensures
            snapshot_matches(r@, self@),
    {
        let n = self.entries.len();
        let mut groups: Vec<DomainCookies> = Vec::new();
        let mut i: usize = 0;
        while i < n
            invariant
                i <= n,
                n == self.entries@.len(),
                unique_keys(self.entries@),
                forall|g: int|
                    0 <= g < groups@.len() ==> exists|t: int|
                        0 <= t < i && self.entries@[t].domain@ == (#[trigger] groups@[g].domain@),
                forall|t: int|
                    0 <= t < i ==> exists|g: int|
                        0 <= g < groups@.len() && groups@[g].domain@ == (
                        #[trigger] self.entries@[t].domain@),
                forall|g: int, h: int|
                    0 <= g < h < groups@.len() ==> (#[trigger] groups@[g].domain@) != (
                    #[trigger] groups@[h].domain@),
                forall|g: int, nm: Seq<char>|
                    0 <= g < groups@.len() ==> #[trigger] pairs_lookup(groups@[g].cookies@, nm)
                        == domain_lookup(self.entries@, groups@[g].domain@, nm),
            decreases n - i,
        {
            let dom = self.entries[i].domain.clone();
            if !domain_seen(&self.entries, i, &dom) {
                let pairs = collect_domain(&self.entries, &dom);
                let ghost prev_groups = groups@;
                groups.push(DomainCookies { domain: dom, cookies: pairs });
                proof {
                    let glen = prev_groups.len() as int;
                    assert(groups@[glen].domain@ == self.entries@[i as int].domain@);
                    assert forall|g: int|
                        0 <= g < groups@.len() implies exists|t: int|
                        0 <= t < i + 1 && self.entries@[t].domain@ == (
                    #[trigger] groups@[g].domain@) by {
                        if g < glen {
                            assert(groups@[g] == prev_groups[g]);
                            let t1 = choose|t: int|
                                0 <= t < i && self.entries@[t].domain@ == (
                                #[trigger] prev_groups[g].domain@);
                            assert(self.entries@[t1].domain@ == groups@[g].domain@);
                        } else {
                            assert(self.entries@[i as int].domain@ == groups@[g].domain@);
                        }
                    }
                    assert forall|t: int|
                        0 <= t < i + 1 implies exists|g: int|
                        0 <= g < groups@.len() && groups@[g].domain@ == (
                    #[trigger] self.entries@[t].domain@) by {
                        if t < i {
                            let g1 = choose|g: int|
                                0 <= g < prev_groups.len() && prev_groups[g].domain@ == (
                                #[trigger] self.entries@[t].domain@);
                            assert(groups@[g1].domain@ == self.entries@[t].domain@);
                        } else {
                            assert(groups@[glen].domain@ == self.entries@[t].domain@);
                        }
                    }
                    assert forall|g: int, h: int|
                        0 <= g < h < groups@.len() implies (#[trigger] groups@[g].domain@) != (
                    #[trigger] groups@[h].domain@) by {
                        if h < glen {
                            assert(prev_groups[g].domain@ != prev_groups[h].domain@);
                        } else {
                            // no entry before i carries the new group's domain,
                            // while every old group's domain occurs before i
                            let t1 = choose|t: int|
                                0 <= t < i && self.entries@[t].domain@ == (
                                #[trigger] prev_groups[g].domain@);
                            assert(self.entries@[t1].domain@ != dom@);
                        }
                    }
                    assert forall|g: int, nm: Seq<char>|
                        0 <= g < groups@.len() implies #[trigger] pairs_lookup(
                        groups@[g].cookies@,
                        nm,
                    ) == domain_lookup(self.entries@, groups@[g].domain@, nm) by {
                        if g < glen {
                            assert(groups@[g] == prev_groups[g]);
                            assert(pairs_lookup(prev_groups[g].cookies@, nm) == domain_lookup(
                                self.entries@,
                                prev_groups[g].domain@,
                                nm,
                            ));
                        } else {
                            assert(pairs_lookup(groups@[glen].cookies@, nm) == domain_lookup(
                                self.entries@,
                                dom@,
                                nm,
                            ));
                        }
                    }
                }
            } else {
                proof {
                    let t0 = choose|t: int|
                        0 <= t < i && (#[trigger] self.entries@[t].domain@) == dom@;
                    let g0 = choose|g: int|
                        0 <= g < groups@.len() && groups@[g].domain@ == (
                        #[trigger] self.entries@[t0].domain@);
                    assert forall|t: int|
                        0 <= t < i + 1 implies exists|g: int|
                        0 <= g < groups@.len() && groups@[g].domain@ == (
                    #[trigger] self.entries@[t].domain@) by {
                        if t == i {
                            assert(groups@[g0].domain@ == self.entries@[t].domain@);
                        }
                    }
                }
            }
            i = i + 1;
        }
        proof {
            assert forall|d: Seq<char>, nm: Seq<char>|
                #[trigger] groups_lookup(groups@, d, nm) == (if map_of(
                self.entries@,
            ).contains_key((d, nm)) {
                Some(map_of(self.entries@)[(d, nm)])
            } else {
                None::<CookiePropsView>
            }) by {
                if exists|g: int| 0 <= g < groups@.len() && (#[trigger] groups@[g].domain@) == d {
                    let g = choose|g: int|
                        0 <= g < groups@.len() && (#[trigger] groups@[g].domain@) == d;
                    assert forall|h: int| 0 <= h < g implies (#[trigger] groups@[h].domain@)
                        != groups@[g].domain@ by {
                        assert(groups@[h].domain@ != groups@[g].domain@);
                    }
                    lemma_groups_lookup_hit(groups@, g, nm);
                    assert(pairs_lookup(groups@[g].cookies@, nm) == domain_lookup(
                        self.entries@,
                        d,
                        nm,
                    ));
                } else {
                    assert(forall|g: int|
                        0 <= g < groups@.len() ==> (#[trigger] groups@[g].domain@) != d);
                    lemma_groups_lookup_miss(groups@, d, nm);
                    if map_of(self.entries@).contains_key((d, nm)) {
                        lemma_map_of_contains(self.entries@, (d, nm));
                        let t = choose|t: int|
                            0 <= t < self.entries@.len() && entry_key(
                                #[trigger] self.entries@[t],
                            ) == (d, nm);
                        assert(self.entries@[t].domain@ == d);
                        assert(false);
                    }
                }
            }
        }
        groups
    }
}

} // verus!
