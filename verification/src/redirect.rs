//! Redirect modes and the per-client redirect-following policy.

use vstd::prelude::*;

use crate::text::str_eq;

verus! {

/// How many redirect hops a freshly created or recycled client follows.
pub const DEFAULT_REDIRECT_HOPS: usize = 10;

/// The redirect mode a caller may request for one fetch.
///
/// `Follow` delegates to the transport's unbounded default, `Manual`
/// treats every redirect response as terminal, and `Limit` follows up
/// to the given number of hops.
#[derive(Debug, Clone, Copy, PartialEq, Eq, Structural)]
pub enum Redirect {
    Follow,
    Manual,
    Limit { limit: usize },
}

/// The mutable redirect-following state of one client.
///
/// `Limited(n)` holds the remaining hop budget; `Follow` is unbounded.
#[derive(Debug, Clone, Copy, PartialEq, Eq, Structural)]
pub enum RedirectPolicy {
    Follow,
    Limited(usize),
}

/// What the transport must do with one redirect response: follow it,
/// or surface it as the final response of the exchange.
#[derive(Debug, Clone, Copy, PartialEq, Eq, Structural)]
pub enum RedirectAction {
    Follow,
    Stop,
}

impl Redirect {
    /// The mode a wire label denotes, if any: `follow` and `manual`
    /// are the two label-shaped modes; a hop budget travels as a
    /// number instead.
    pub open spec fn spec_from_label(s: Seq<char>) -> Option<Redirect> {
        if s == "follow"@ {
            Some(Redirect::Follow)
        } else if s == "manual"@ {
            Some(Redirect::Manual)
        } else {
            None
        }
    }

    /// Reads a mode back from its wire label.
    pub fn from_label(s: &str) -> (r: Option<Redirect>)
        ensures
            r == Self::spec_from_label(s@),
    {
        if str_eq(s, "follow") {
            Some(Redirect::Follow)
        } else if str_eq(s, "manual") {
            Some(Redirect::Manual)
        } else {
            None
        }
    }

    /// The policy that this mode installs on the client before sending:
    /// `Manual` is a hop budget of zero, `Limit` the given budget.
    pub open spec fn spec_policy(self) -> RedirectPolicy {
        match self {
            Redirect::Follow => RedirectPolicy::Follow,
            Redirect::Manual => RedirectPolicy::Limited(0),
            Redirect::Limit { limit } => RedirectPolicy::Limited(limit),
        }
    }

    /// Maps this redirect mode to the policy it installs on the client.
    pub fn policy(&self) -> (r: RedirectPolicy)
        ensures
            r == self.spec_policy(),
    {
        match self {
            Redirect::Follow => RedirectPolicy::Follow,
            Redirect::Manual => RedirectPolicy::Limited(0),
            Redirect::Limit { limit } => RedirectPolicy::Limited(*limit),
        }
    }
}

impl RedirectPolicy {
    /// The policy that follows every redirect.
    pub fn follow() -> (r: Self)
        ensures
            r == RedirectPolicy::Follow,
    {
        RedirectPolicy::Follow
    }

    /// The policy that follows at most `max` redirects.
    pub fn limited(max: usize) -> (r: Self)
        ensures
            r == RedirectPolicy::Limited(max),
    {
        RedirectPolicy::Limited(max)
    }

    /// One consultation of the policy: the action taken on a redirect
    /// response, and the policy state left behind.
    pub open spec fn spec_check(self) -> (RedirectAction, RedirectPolicy) {
        match self {
            RedirectPolicy::Follow => (RedirectAction::Follow, self),
            RedirectPolicy::Limited(n) => if n == 0 {
                (RedirectAction::Stop, self)
            } else {
                (RedirectAction::Follow, RedirectPolicy::Limited((n - 1) as usize))
            },
        }
    }

    /// Consulted by the transport on every redirect response. `Follow`
    /// always follows; `Limited` follows while the budget lasts,
    /// decrementing per hop, and stops once it is exhausted. A `Stop`
    /// means the redirect response itself becomes the final response,
    /// not a failure.
    pub fn check(&mut self) -> (r: RedirectAction)
        ensures
            (r, *final(self)) == old(self).spec_check(),
    {
        match self {
            RedirectPolicy::Follow => RedirectAction::Follow,
            RedirectPolicy::Limited(n) => {
                if *n == 0 {
                    RedirectAction::Stop
                } else {
                    *n = *n - 1;
                    RedirectAction::Follow
                }
            },
        }
    }
}

/// The policy every client starts with and is reset to on recycling.
pub fn default_redirect_policy() -> (r: RedirectPolicy)
    ensures
        r == RedirectPolicy::Limited(DEFAULT_REDIRECT_HOPS),
{
    RedirectPolicy::limited(DEFAULT_REDIRECT_HOPS)
}

/// An exhausted hop budget stops at the very first redirect response:
/// under the policy that `Manual` or `Limit(0)` installs, the first
/// consultation yields `Stop` and leaves the budget exhausted, so the
/// redirect response is surfaced as-is rather than followed or turned
/// into a transport error.
pub proof fn lemma_exhausted_policy_stops(r: Redirect)
    requires
        r == Redirect::Manual || r == (Redirect::Limit { limit: 0usize }),
    ensures
        r.spec_policy().spec_check() == (RedirectAction::Stop, r.spec_policy()),
{
}

} // verus!
