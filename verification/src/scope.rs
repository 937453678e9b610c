//! The URL-scope allowlist: a fetch target is permitted only if its
//! full string form matches one of the configured glob patterns. An
//! empty allowlist denies everything: the scope fails closed.

use vstd::prelude::*;

verus! {

/// Whether `glob::Pattern::new` accepts `pattern`. The outcome is a
/// function of the pattern string alone.
pub uninterp spec fn glob_pattern_ok(pattern: Seq<char>) -> bool;

/// Whether the glob `pattern` matches `text` under the default match
/// options, where `*` matches any run of characters, separators
/// included. The outcome is a function of the two strings alone.
pub uninterp spec fn glob_match(pattern: Seq<char>, text: Seq<char>) -> bool;

/// Relies on glob::Pattern::new: whether a pattern compiles is
/// deterministic in the pattern string.
#[verifier::external_body]
fn glob_compile_ok(pattern: &str) -> (r: bool)
    ensures
        r == glob_pattern_ok(pattern@),
{
    glob::Pattern::new(pattern).is_ok()
}

/// Relies on glob::Pattern::matches: matching is deterministic in the
/// pattern and the text. The pattern is recompiled with
/// glob::Pattern::new, which the precondition says succeeds.
#[verifier::external_body]
fn glob_match_str(pattern: &str, text: &str) -> (r: bool)
    requires
        glob_pattern_ok(pattern@),
    ensures
        r == glob_match(pattern@, text@),
{
    match glob::Pattern::new(pattern) {
        Ok(p) => p.matches(text),
        Err(_) => false,
    }
}

/// Whether some pattern of `patterns` matches `url`.
pub open spec fn spec_is_allowed(patterns: Seq<Seq<char>>, url: Seq<char>) -> bool {
    exists|i: int| 0 <= i < patterns.len() && glob_match(#[trigger] patterns[i], url)
}

/// An empty allowlist denies every URL: the scope fails closed, never
/// open.
pub proof fn lemma_empty_scope_denies(patterns: Seq<Seq<char>>, url: Seq<char>)
    requires
        patterns.len() == 0,
    ensures
        !spec_is_allowed(patterns, url),
{
}

/// The ordered allowlist of URL patterns a fetch target must match.
#[derive(Debug)]
pub struct Scope {
    allowlist: Vec<String>,
}

impl View for Scope {
    type V = Seq<Seq<char>>;

    closed spec fn view(&self) -> Seq<Seq<char>> {
        self.allowlist.deep_view()
    }
}

impl Scope {
    /// Every pattern of the scope compiles.
    pub closed spec fn wf(self) -> bool {
        forall|i: int| 0 <= i < self@.len() ==> glob_pattern_ok(#[trigger] self@[i])
    }

    /// Builds a scope from pattern strings, validating each one; the
    /// index of the first pattern that does not compile is returned
    /// instead of a scope.
    pub fn from_patterns(patterns: Vec<String>) -> (r: Result<Scope, usize>)
        ensures
            match r {
                Ok(sc) => sc@ == patterns.deep_view() && sc.wf(),
                Err(i) => i < patterns.deep_view().len() && !glob_pattern_ok(
                    patterns.deep_view()[i as int],
                ) && forall|j: int|
                    0 <= j < i ==> glob_pattern_ok(#[trigger] patterns.deep_view()[j]),
            },
    {
        let n = patterns.len();
        let mut i: usize = 0;
        while i < n
            invariant
                i <= n,
                n == patterns@.len(),
                forall|j: int| 0 <= j < i ==> glob_pattern_ok(#[trigger] patterns.deep_view()[j]),
            decreases n - i,
        {
            let ok = glob_compile_ok(patterns[i].as_str());
            proof {
                assert(patterns.deep_view()[i as int] == patterns@[i as int]@);
            }
            if !ok {
                return Err(i);
            }
            i = i + 1;
        }
        let sc = Scope { allowlist: patterns };
        proof {
            assert(sc.wf());
        }
        Ok(sc)
    }

    /// True exactly when some pattern matches the URL's full string
    /// form. Patterns are tried in order; on a well-formed scope (one
    /// whose every pattern compiles, as the constructors guarantee)
    /// the answer is [`spec_is_allowed`], and an empty allowlist
    /// answers false whatever the URL.
    pub fn is_allowed(&self, url: &str) -> (r: bool)
        ensures
            self.wf() ==> r == spec_is_allowed(self@, url@),
            self@.len() == 0 ==> r == false,
            r ==> spec_is_allowed(self@, url@),
    {
        let n = self.allowlist.len();
        let mut i: usize = 0;
        while i < n
            invariant
                i <= n,
                n == self.allowlist@.len(),
                forall|j: int|
                    0 <= j < i ==> !(glob_pattern_ok(#[trigger] self@[j]) && glob_match(
                        self@[j],
                        url@,
                    )),
            decreases n - i,
        {
            proof {
                assert(self@[i as int] == self.allowlist@[i as int]@);
            }
            let p = &self.allowlist[i];
            if glob_compile_ok(p.as_str()) {
                if glob_match_str(p.as_str(), url) {
                    proof {
                        assert(glob_match(self@[i as int], url@));
                    }
                    return true;
                }
            }
            i = i + 1;
        }
        false
    }

    /// How many patterns the allowlist holds.
    pub fn pattern_count(&self) -> (r: usize)
        ensures
            r == self@.len(),
    {
        self.allowlist.len()
    }
}

impl Default for Scope {
    /// The empty scope, which denies every URL.
    fn default() -> (r: Self)
        ensures
            r@ =~= Seq::<Seq<char>>::empty(),
            r.wf(),
    {
        Scope { allowlist: Vec::new() }
    }
}

} // verus!
