//! The pooled cookie client. A client pairs the mutable state the
//! library tracks for one HTTP transport handle: a cookie jar and a
//! redirect policy. The pool hands clients out exclusively and resets
//! them between uses, so no acquisition ever sees another's state.

use vstd::prelude::*;

use crate::cookies::{CookiePropsView, Jar};
use crate::redirect::{default_redirect_policy, RedirectPolicy, DEFAULT_REDIRECT_HOPS};

verus! {

/// One client's mutable state: its cookie jar and its redirect policy.
/// The transport handle itself lives with the caller; everything the
/// request/response translation reads or writes is here.
#[derive(Debug)]
pub struct CookieClient {
    pub jar: Jar,
    pub redirect_policy: RedirectPolicy,
}

impl CookieClient {
    /// The state every acquisition observes: an empty, well-formed jar
    /// and the default redirect policy.
    pub open spec fn is_reset(self) -> bool {
        &&& self.jar@ == Map::<(Seq<char>, Seq<char>), CookiePropsView>::empty()
        &&& self.jar.wf()
        &&& self.redirect_policy == RedirectPolicy::Limited(DEFAULT_REDIRECT_HOPS)
    }

    /// A fresh client.
    pub fn new() -> (r: Self)
        ensures
            r.is_reset(),
    {
        CookieClient { jar: Jar::new(), redirect_policy: default_redirect_policy() }
    }

    /// Clears the jar and restores the default redirect policy,
    /// whatever was done to either.
    pub fn reset(&mut self)
        ensures
            final(self).is_reset(),
    {
        self.jar.clear();
        self.redirect_policy = default_redirect_policy();
    }
}

/// The pool of reusable clients. Handing a client out moves it to the
/// holder, so no two holders ever share one; releasing resets it.
#[derive(Debug)]
pub struct CookieClientPool {
    idle: Vec<CookieClient>,
}

impl CookieClientPool {
    /// Every idle client sits in the pool fully reset.
    pub closed spec fn wf(self) -> bool {
        forall|i: int| 0 <= i < self.idle@.len() ==> (#[trigger] self.idle@[i]).is_reset()
    }

    /// An empty pool; clients are created on demand.
    pub fn new() -> (r: Self)
        ensures
            r.wf(),
    {
        CookieClientPool { idle: Vec::new() }
    }

    /// Acquires a client: the most recently released idle one if any,
    /// else a fresh one, leaving the rest of the pool as it was.
    /// Immediately after an acquisition the jar is empty and the
    /// redirect policy is the default, regardless of any prior
    /// mutation of the client before it was released.
    pub fn get(&mut self) -> (r: CookieClient)
        requires
            old(self).wf(),
        ensures
            r.is_reset(),
            final(self).wf(),
            old(self)@.len() > 0 ==> final(self)@ == old(self)@.drop_last() && r == old(
                self,
            )@.last(),
            old(self)@.len() == 0 ==> final(self)@ == old(self)@,
    {
        match self.idle.pop() {
            Some(c) => c,
            None => CookieClient::new(),
        }
    }

    /// Releases a client back to the pool, resetting it first: the
    /// client joins the idle list with its jar cleared and its policy
    /// restored to the default, whether the exchange it served
    /// succeeded or failed; the other idle clients stay as they were.
    pub fn release(&mut self, client: CookieClient)
        requires
            old(self).wf(),
        ensures
            final(self).wf(),
            final(self)@.len() == old(self)@.len() + 1,
            final(self)@[old(self)@.len() as int].is_reset(),
            forall|i: int| 0 <= i < old(self)@.len() ==> final(self)@[i] == old(self)@[i],
    {
        let mut c = client;
        c.reset();
        let ghost prev = self.idle@;
        self.idle.push(c);
        proof {
            assert forall|i: int| 0 <= i < self.idle@.len() implies (
            #[trigger] self.idle@[i]).is_reset() by {
                if i < prev.len() {
                    assert(prev[i].is_reset());
                }
            }
        }
    }

    /// How many idle clients the pool holds.
    pub fn idle_count(&self) -> (r: usize)
        ensures
            r == self@.len(),
    {
        self.idle.len()
    }
}

impl View for CookieClientPool {
    type V = Seq<CookieClient>;

    closed spec fn view(&self) -> Seq<CookieClient> {
        self.idle@
    }
}

} // verus!
