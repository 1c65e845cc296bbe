//! Per-request token resolution from untrusted sources.
//!
//! A request may carry token text in the session cookie, in any number
//! of `Authorization: Bearer` headers, and in a `token` query
//! parameter. Each source is decoded and validated independently;
//! sources that fail to decode are skipped and never abort the
//! resolution. Valid tokens are folded together by the trust-preserving
//! merge. A grant that arrived outside the cookie must be persisted, so
//! resolution also decides whether a fresh session cookie is owed;
//! a token found in the cookie alone never re-issues the cookie.
//! `Authorization: Basic` credentials are a retired feature: such
//! headers are ignored, not rejected.

use vstd::prelude::*;

use crate::tokens::{decode_token, merge_tokens, CapabilityToken, RootKey};

verus! {

/// Where a piece of token text arrived from.
#[derive(PartialEq, Eq, Structural, Clone, Copy, Debug)]
pub enum TokenSource {
    Cookie,
    Bearer,
    QueryParam,
}

/// The token text of an `Authorization` header, when the header uses
/// the `Bearer` scheme.
pub fn bearer_token_of_header(header: &str) -> (r: Option<String>)
    ensures
        match r {
            Some(t) => header@ == "Bearer "@ + t@,
            None => !(header@.len() >= "Bearer "@.len() && header@.take("Bearer "@.len() as int)
                == "Bearer "@),
        },
{
    proof {
        reveal_strlit("Bearer ");
    }
    if crate::strings::str_starts_with(header, "Bearer ") {
        let n = header.unicode_len();
        let t = header.substring_char(7, n);
        proof {
            assert(header@ =~= "Bearer "@ + t@);
        }
        Some(t.to_owned())
    } else {
        None
    }
}

/// What request-token resolution produced: the accumulated token, and
/// whether a fresh session cookie must be set.
pub struct ResolvedSession {
    pub token: Option<CapabilityToken>,
    pub should_refresh_cookie: bool,
}

/// Folds the request's token sources, in order, into one trusted
/// token: the first source that decodes seeds the accumulator, every
/// later one is merged in (re-signed under the root key), and a source
/// whose merge the crate refuses is simply not gained. The cookie is
/// re-issued only when a grant arrived from a non-cookie source.
pub fn resolve_token(candidates: &Vec<(TokenSource, String)>, root: &RootKey) -> (r:
    ResolvedSession)
    ensures
        match r.token {
            Some(t) => t.wf(),
            None => true,
        },
        candidates@.len() == 0 ==> (r.token is None && !r.should_refresh_cookie),
        r.should_refresh_cookie ==> exists|j: int|
            0 <= j < candidates@.len() && (#[trigger] candidates@[j]).0 != TokenSource::Cookie,
        (forall|i: int|
            0 <= i < candidates@.len() ==> (#[trigger] candidates@[i]).0 == TokenSource::Cookie)
            ==> !r.should_refresh_cookie,
{
    let public_key = root.public();
    let mut token: Option<CapabilityToken> = None;
    let mut should_refresh_cookie = false;
    let mut i: usize = 0;
    while i < candidates.len()
        invariant
            i <= candidates@.len(),
            match token {
                Some(t) => t.wf(),
                None => true,
            },
            i == 0 ==> (token is None && !should_refresh_cookie),
            should_refresh_cookie ==> exists|j: int|
                0 <= j < i && (#[trigger] candidates@[j]).0 != TokenSource::Cookie,
        decreases candidates@.len() - i,
    {
        let source = candidates[i].0;
        match decode_token(candidates[i].1.as_str(), &public_key) {
            Err(_) => {
                // A source that does not decode contributes nothing.
            },
            Ok(new_token) => {
                token = match token {
                    None => {
                        if !matches!(source, TokenSource::Cookie) {
                            should_refresh_cookie = true;
                        }
                        Some(new_token)
                    },
                    Some(acc) => {
                        match merge_tokens(&acc, &new_token, root) {
                            Some(merged) => {
                                if !matches!(source, TokenSource::Cookie) {
                                    should_refresh_cookie = true;
                                }
                                Some(merged)
                            },
                            None => Some(acc),
                        }
                    },
                };
            },
        }
        i = i + 1;
    }
    ResolvedSession { token, should_refresh_cookie }
}

} // verus!
