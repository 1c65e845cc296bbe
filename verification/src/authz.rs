//! The capability-token authorization engine.
//!
//! A token's enforceable content is a set of ground facts and checks
//! over a fixed, small rule vocabulary: `profile(p)` facts granted by
//! the issuer, and `check if time($t), $t <= <expiry>` constraints.
//! Authorization of a candidate profile synthesizes the fixed context
//! `operation("read")`, `time(now)`, `right(<candidate>, "read")`,
//! `right("*", "read")` with the allow rule
//! `allow if operation($op), profile($p), right($p, $op)`:
//! the rule is satisfiable exactly when the token carries the candidate
//! profile or the `*` wildcard, and any failing check rejects the token
//! outright. The default profile is authorized without consulting any
//! token: such pages are public.

use vstd::prelude::*;

use crate::strings::{contains_str, contains_view, str_eq};

verus! {

/// The enforceable content of a validated capability token, as plain
/// facts: the profiles its issuer granted, the expiry bound of every
/// `time` check in its chain, and whether the chain carried any
/// constraint this engine cannot read (such a token must never
/// authorize anything, since its checks cannot be shown to hold).
pub struct TokenFacts {
    pub profiles: Vec<String>,
    pub expiries: Vec<i64>,
    pub opaque_checks: bool,
}

/// Whether the allow rule is satisfiable for `candidate`: the token
/// carries that profile, or the `*` super-admin wildcard.
pub open spec fn spec_grants(profiles: Seq<String>, candidate: Seq<char>) -> bool {
    contains_view(profiles, candidate) || contains_view(profiles, "*"@)
}

/// Whether every expiry check of the token holds at time `now`.
pub open spec fn spec_checks_pass(expiries: Seq<i64>, now: i64) -> bool {
    forall|i: int| 0 <= i < expiries.len() ==> now <= expiries[i]
}

impl TokenFacts {
    /// All of the token's own checks hold at `now`, and none of them
    /// was unreadable.
    pub open spec fn valid_at(&self, now: i64) -> bool {
        !self.opaque_checks && spec_checks_pass(self.expiries@, now)
    }

    /// The token grants `candidate` (directly or through `*`).
    pub open spec fn spec_grants_profile(&self, candidate: Seq<char>) -> bool {
        spec_grants(self.profiles@, candidate)
    }
}

/// Whether `candidate` is authorized at `now` by `token`; the default
/// profile is authorized unconditionally.
pub open spec fn spec_authorized(
    token: Option<&TokenFacts>,
    candidate: Seq<char>,
    now: i64,
) -> bool {
    candidate == "_default"@ || match token {
        Some(t) => t.valid_at(now) && t.spec_grants_profile(candidate),
        None => false,
    }
}

/// Authorization against the default profile always succeeds, for any
/// token (including none) and any time: public pages stay public.
pub proof fn lemma_default_profile_universal(token: Option<&TokenFacts>, now: i64)
    ensures
        spec_authorized(token, "_default"@, now),
{
}

/// A token whose granted profiles are the concatenation of two grant
/// sets authorizes exactly the profiles either set grants: merging
/// tokens yields the union of their authorized profiles, and nothing
/// more.
pub proof fn lemma_merged_grants_union(a: Seq<String>, b: Seq<String>, q: Seq<char>)
    ensures
        spec_grants(a + b, q) <==> (spec_grants(a, q) || spec_grants(b, q)),
{
    lemma_contains_view_concat(a, b, q);
    lemma_contains_view_concat(a, b, "*"@);
}

proof fn lemma_contains_view_concat(a: Seq<String>, b: Seq<String>, p: Seq<char>)
    ensures
        contains_view(a + b, p) <==> (contains_view(a, p) || contains_view(b, p)),
{
    if contains_view(a, p) {
        let i = choose|i: int| 0 <= i < a.len() && a[i]@ == p;
        assert((a + b)[i]@ == p);
    }
    if contains_view(b, p) {
        let i = choose|i: int| 0 <= i < b.len() && b[i]@ == p;
        assert((a + b)[a.len() + i]@ == p);
    }
    if contains_view(a + b, p) {
        let i = choose|i: int| 0 <= i < (a + b).len() && (a + b)[i]@ == p;
        if i < a.len() {
            assert(a[i]@ == p);
        } else {
            assert(b[i - a.len()]@ == p);
        }
    }
}

/// Evaluates the token's expiry checks at time `now`.
pub fn checks_pass(expiries: &Vec<i64>, now: i64) -> (r: bool)
    ensures
        r == spec_checks_pass(expiries@, now),
{
    let n = expiries.len();
    let mut i: usize = 0;
    while i < n
        invariant
            i <= n,
            n == expiries@.len(),
            forall|j: int| 0 <= j < i ==> now <= expiries@[j],
        decreases n - i,
    {
        if now > expiries[i] {
            return false;
        }
        i = i + 1;
    }
    true
}

/// Decides whether `token` authorizes a read of `candidate` at `now`.
pub fn authorize(token: Option<&TokenFacts>, candidate: &str, now: i64) -> (r: bool)
    ensures
        r == spec_authorized(token, candidate@, now),
{
    if str_eq(candidate, "_default") {
        return true;
    }
    match token {
        None => false,
        Some(t) => {
            if t.opaque_checks {
                return false;
            }
            if !checks_pass(&t.expiries, now) {
                return false;
            }
            contains_str(&t.profiles, candidate) || contains_str(&t.profiles, "*")
        },
    }
}

/// The declaration-order position of the first allowed profile that the
/// token authorizes, if any. The first match is selected (not the most
/// privileged one): it decides which stored content variant is served,
/// not merely whether access is granted.
pub fn first_authorized_profile(
    token: Option<&TokenFacts>,
    allowed_profiles: &Vec<String>,
    now: i64,
) -> (r: Option<usize>)
    ensures
        match r {
            Some(i) => i < allowed_profiles@.len() && spec_authorized(
                token,
                allowed_profiles@[i as int]@,
                now,
            ) && forall|j: int|
                0 <= j < i ==> !spec_authorized(token, allowed_profiles@[j]@, now),
            None => forall|j: int|
                0 <= j < allowed_profiles@.len() ==> !spec_authorized(
                    token,
                    allowed_profiles@[j]@,
                    now,
                ),
        },
{
    let n = allowed_profiles.len();
    let mut i: usize = 0;
    while i < n
        invariant
            i <= n,
            n == allowed_profiles@.len(),
            forall|j: int| 0 <= j < i ==> !spec_authorized(token, allowed_profiles@[j]@, now),
        decreases n - i,
    {
        if authorize(token, allowed_profiles[i].as_str(), now) {
            return Some(i);
        }
        i = i + 1;
    }
    None
}

/// Whether some profile allowed to read a page is authorized by the
/// token: the page-level access decision.
pub fn is_authorized(token: Option<&TokenFacts>, allowed_profiles: &Vec<String>, now: i64) -> (r:
    bool)
    ensures
        r == exists|j: int|
            0 <= j < allowed_profiles@.len() && spec_authorized(
                token,
                #[trigger] allowed_profiles@[j]@,
                now,
            ),
{
    let r = first_authorized_profile(token, allowed_profiles, now);
    match r {
        Some(i) => {
            proof {
                assert(spec_authorized(token, allowed_profiles@[i as int]@, now));
            }
            true
        },
        None => false,
    }
}

} // verus!
