//! The refresh-credential protocol and the revocation registry.
//!
//! A short-lived refresh credential carried in a link can upgrade a
//! browser session to a long-lived session token. Before any session is
//! minted the credential's revocation identifiers are held against the
//! process-wide deny list, then its own expiry checks are evaluated; a
//! super-admin safety guard keeps an accidentally opened refresh link
//! from silently downgrading an admin session.

use vstd::prelude::*;

use crate::authz::TokenFacts;
use crate::strings::{contains_view, decode_hex, hex_decoded, is_hex_text};
use crate::tokens::{bake_session_token, decode_token, encode_token, merge_tokens,
    CapabilityToken, RootKey};

verus! {

/// The process-wide set of revoked token identifiers, reloaded from the
/// external list at content-update time; consulted before trusting any
/// refresh credential.
pub struct RevocationRegistry {
    pub revoked: Vec<Vec<u8>>,
}

/// Compares two identifiers byte for byte.
fn bytes_eq(a: &Vec<u8>, b: &Vec<u8>) -> (r: bool)
    ensures
        r == (a@ == b@),
{
    if a.len() != b.len() {
        return false;
    }
    let n = a.len();
    let mut i: usize = 0;
    while i < n
        invariant
            i <= n,
            n == a@.len(),
            n == b@.len(),
            forall|j: int| 0 <= j < i ==> a@[j] == b@[j],
        decreases n - i,
    {
        if a[i] != b[i] {
            return false;
        }
        i = i + 1;
    }
    proof {
        assert(a@ =~= b@);
    }
    true
}

/// The identifier denoted by one line of the external revocation list:
/// its hexadecimal reading where well-formed, otherwise its raw bytes.
pub open spec fn revoked_id_of_line(l: Seq<char>) -> Seq<u8> {
    if is_hex_text(l) {
        hex_decoded(l)
    } else {
        vstd::utf8::encode_utf8(l)
    }
}

/// Whether some non-empty line among the first `n` denotes `id`.
pub open spec fn some_line_has_id(lines: Seq<String>, n: int, id: Seq<u8>) -> bool {
    exists|m: int|
        0 <= m < n && (#[trigger] lines[m]@).len() > 0 && revoked_id_of_line(lines[m]@) == id
}

proof fn lemma_some_line_has_id_widen(lines: Seq<String>, i: int, j: int, id: Seq<u8>)
    requires
        some_line_has_id(lines, i, id),
        i <= j,
    ensures
        some_line_has_id(lines, j, id),
{
    let m = choose|m: int|
        0 <= m < i && (#[trigger] lines[m]@).len() > 0 && revoked_id_of_line(lines[m]@) == id;
    assert(0 <= m < j && lines[m]@.len() > 0 && revoked_id_of_line(lines[m]@) == id);
}

/// Whether some element of `v` holds the bytes `id`.
pub open spec fn contains_bytes(v: Seq<Vec<u8>>, id: Seq<u8>) -> bool {
    exists|i: int| 0 <= i < v.len() && v[i]@ == id
}

impl RevocationRegistry {
    /// Whether `id` is on the deny list.
    pub open spec fn spec_contains(&self, id: Seq<u8>) -> bool {
        contains_bytes(self.revoked@, id)
    }

    /// Whether any of `ids` is on the deny list.
    pub open spec fn spec_any_revoked(&self, ids: Seq<Vec<u8>>) -> bool {
        exists|i: int| 0 <= i < ids.len() && self.spec_contains(#[trigger] ids[i]@)
    }

    /// An empty deny list: no token is revoked.
    pub fn new() -> (r: Self)
        ensures
            r.revoked@.len() == 0,
    {
        RevocationRegistry { revoked: Vec::new() }
    }

    /// Loads the deny list from the lines of the external revocation
    /// file: each non-empty line one identifier, read as hexadecimal
    /// where well-formed and kept as raw bytes otherwise.
    pub fn read_revoked_tokens(lines: &Vec<String>) -> (r: Self)
        ensures
            forall|k: int|
                0 <= k < lines@.len() && (#[trigger] lines@[k]@).len() > 0 ==> r.spec_contains(
                    revoked_id_of_line(lines@[k]@),
                ),
            forall|k: int|
                0 <= k < r.revoked@.len() ==> some_line_has_id(
                    lines@,
                    lines@.len() as int,
                    (#[trigger] r.revoked@[k])@,
                ),
    {
        let mut revoked: Vec<Vec<u8>> = Vec::new();
        let mut i: usize = 0;
        while i < lines.len()
            invariant
                i <= lines@.len(),
                forall|k: int|
                    0 <= k < i && (#[trigger] lines@[k]@).len() > 0 ==> contains_bytes(
                        revoked@,
                        revoked_id_of_line(lines@[k]@),
                    ),
                forall|k: int|
                    0 <= k < revoked@.len() ==> some_line_has_id(
                        lines@,
                        i as int,
                        (#[trigger] revoked@[k])@,
                    ),
            decreases lines@.len() - i,
        {
            let line = &lines[i];
            let ghost before = revoked@;
            if line.as_str().unicode_len() > 0 {
                let id = match decode_hex(line.as_str()) {
                    Some(bytes) => bytes,
                    None => line.as_str().as_bytes_vec(),
                };
                proof {
                    assert(id@ == revoked_id_of_line(line@));
                }
                revoked.push(id);
                proof {
                    assert(revoked@[revoked@.len() - 1]@ == revoked_id_of_line(
                        lines@[i as int]@,
                    ));
                    assert forall|k: int|
                        0 <= k < i + 1 && (#[trigger] lines@[k]@).len() > 0 implies contains_bytes(
                        revoked@,
                        revoked_id_of_line(lines@[k]@),
                    ) by {
                        if k < i {
                            let m = choose|m: int|
                                0 <= m < before.len() && before[m]@ == revoked_id_of_line(
                                    lines@[k]@,
                                );
                            assert(revoked@[m]@ == revoked_id_of_line(lines@[k]@));
                        } else {
                            assert(revoked@[revoked@.len() - 1]@ == revoked_id_of_line(
                                lines@[k]@,
                            ));
                        }
                    }
                    assert forall|k: int| 0 <= k < revoked@.len() implies some_line_has_id(
                        lines@,
                        i + 1,
                        (#[trigger] revoked@[k])@,
                    ) by {
                        if k < before.len() {
                            assert(revoked@[k] == before[k]);
                            lemma_some_line_has_id_widen(lines@, i as int, i + 1, before[k]@);
                        } else {
                            assert(0 <= i < i + 1 && lines@[i as int]@.len() > 0
                                && revoked_id_of_line(lines@[i as int]@) == revoked@[k]@);
                        }
                    }
                }
            } else {
                proof {
                    assert forall|k: int| 0 <= k < revoked@.len() implies some_line_has_id(
                        lines@,
                        i + 1,
                        (#[trigger] revoked@[k])@,
                    ) by {
                        lemma_some_line_has_id_widen(lines@, i as int, i + 1, revoked@[k]@);
                    }
                }
            }
            i = i + 1;
        }
        RevocationRegistry { revoked }
    }

    /// Scans the deny list for `id`.
    pub fn is_revoked(&self, id: &Vec<u8>) -> (r: bool)
        ensures
            r == self.spec_contains(id@),
    {
        let n = self.revoked.len();
        let mut i: usize = 0;
        while i < n
            invariant
                i <= n,
                n == self.revoked@.len(),
                forall|j: int| 0 <= j < i ==> self.revoked@[j]@ != id@,
            decreases n - i,
        {
            if bytes_eq(&self.revoked[i], id) {
                return true;
            }
            i = i + 1;
        }
        false
    }

    /// Whether any of a token's revocation identifiers is on the deny
    /// list. An attacker who revokes a prefix of a chain thereby
    /// revokes every longer chain sharing that prefix.
    pub fn any_revoked(&self, ids: &Vec<Vec<u8>>) -> (r: bool)
        ensures
            r == self.spec_any_revoked(ids@),
    {
        let n = ids.len();
        let mut i: usize = 0;
        while i < n
            invariant
                i <= n,
                n == ids@.len(),
                forall|j: int| 0 <= j < i ==> !self.spec_contains(#[trigger] ids@[j]@),
            decreases n - i,
        {
            if self.is_revoked(&ids[i]) {
                return true;
            }
            i = i + 1;
        }
        false
    }
}

/// What the refresh flow decides for a credential that decoded as
/// signature-valid.
#[derive(PartialEq, Eq, Structural, Clone, Copy, Debug)]
pub enum RefreshDecision {
    /// A revocation identifier matched the deny list.
    Forbidden,
    /// The credential's own expiry check failed.
    Unauthorized,
    /// The requester already holds the super-admin wildcard and did not
    /// force the refresh: redirect without touching the session.
    SkipNoOp,
    /// Mint a new session token from the credential.
    Mint,
}

/// The refresh verdict, in precedence order: revocation first, then the
/// credential's own time bounds, then the super-admin guard.
pub open spec fn spec_refresh_decision(revoked: bool, valid: bool, admin_noop: bool)
    -> RefreshDecision {
    if revoked {
        RefreshDecision::Forbidden
    } else if !valid {
        RefreshDecision::Unauthorized
    } else if admin_noop {
        RefreshDecision::SkipNoOp
    } else {
        RefreshDecision::Mint
    }
}

/// Revocation precedence: a syntactically valid, unexpired refresh
/// credential whose revocation identifier is on the deny list is always
/// rejected as forbidden, regardless of its facts, the session, or the
/// force flag.
pub proof fn lemma_revocation_precedence(valid: bool, admin_noop: bool)
    ensures
        spec_refresh_decision(true, valid, admin_noop) == RefreshDecision::Forbidden,
{
}

/// Decides what to do with a signature-valid refresh credential: holds
/// its revocation identifiers against the deny list, evaluates its own
/// expiry checks at `now`, and applies the super-admin guard against
/// the current session.
pub fn refresh_decision(
    refresh_facts: &TokenFacts,
    revocation_ids: &Vec<Vec<u8>>,
    registry: &RevocationRegistry,
    now: i64,
    session_profiles: Option<&Vec<String>>,
    force: bool,
) -> (r: RefreshDecision)
    ensures
        r == spec_refresh_decision(
            registry.spec_any_revoked(revocation_ids@),
            refresh_facts.valid_at(now),
            match session_profiles {
                Some(p) => contains_view(p@, "*"@) && !force,
                None => false,
            },
        ),
{
    if registry.any_revoked(revocation_ids) {
        return RefreshDecision::Forbidden;
    }
    let valid = !refresh_facts.opaque_checks && crate::authz::checks_pass(
        &refresh_facts.expiries,
        now,
    );
    if !valid {
        return RefreshDecision::Unauthorized;
    }
    match session_profiles {
        Some(profiles) => {
            if crate::strings::contains_str(profiles, "*") && !force {
                RefreshDecision::SkipNoOp
            } else {
                RefreshDecision::Mint
            }
        },
        None => RefreshDecision::Mint,
    }
}

/// The views of rendered query parameters.
pub open spec fn pair_views(q: Seq<(String, String)>) -> Seq<(Seq<char>, Seq<char>)> {
    q.map_values(|kv: (String, String)| (kv.0@, kv.1@))
}

/// Whether a query parameter survives the refresh redirect: the
/// refresh token and the force flag are stripped, everything else is
/// kept.
pub open spec fn kept_param(kv: (Seq<char>, Seq<char>)) -> bool {
    kv.0 != "refresh_token"@ && kv.0 != "force"@
}

/// The query parameters that survive the refresh redirect, in order.
pub open spec fn kept_params(q: Seq<(Seq<char>, Seq<char>)>) -> Seq<(Seq<char>, Seq<char>)> {
    q.filter(|kv: (Seq<char>, Seq<char>)| kept_param(kv))
}

/// One rendered `key=value` query segment.
pub open spec fn param_text(kv: (Seq<char>, Seq<char>)) -> Seq<char> {
    kv.0 + seq!['='] + kv.1
}

/// Query segments joined with `&`.
pub open spec fn joined_params(q: Seq<(Seq<char>, Seq<char>)>) -> Seq<char>
    decreases q.len(),
{
    if q.len() == 0 {
        Seq::empty()
    } else if q.len() == 1 {
        param_text(q[0])
    } else {
        param_text(q[0]) + seq!['&'] + joined_params(q.skip(1))
    }
}

/// The URL a refresh redirects to: the same path, with the refresh
/// token and force parameters stripped from the query.
pub open spec fn spec_redirect_target(path: Seq<char>, q: Seq<(Seq<char>, Seq<char>)>) -> Seq<
    char,
> {
    if kept_params(q).len() == 0 {
        path
    } else {
        path + seq!['?'] + joined_params(kept_params(q))
    }
}

proof fn lemma_kept_params_step(q: Seq<(Seq<char>, Seq<char>)>, i: int)
    requires
        0 <= i < q.len(),
    ensures
        kept_param(q[i]) ==> kept_params(q.take(i + 1)) == kept_params(q.take(i)).push(q[i]),
        !kept_param(q[i]) ==> kept_params(q.take(i + 1)) == kept_params(q.take(i)),
{
    reveal(Seq::filter);
    assert(q.take(i + 1).drop_last() =~= q.take(i));
    assert(q.take(i + 1).last() == q[i]);
}

proof fn lemma_joined_params_take(q: Seq<(Seq<char>, Seq<char>)>, i: int)
    requires
        1 <= i < q.len(),
    ensures
        joined_params(q.take(i + 1)) == joined_params(q.take(i)) + seq!['&'] + param_text(q[i]),
    decreases i,
{
    reveal_with_fuel(joined_params, 3);
    if i == 1 {
        assert(q.take(2)[0] == q[0]);
        assert(q.take(2).skip(1) =~= seq![q[1]]);
        assert(q.take(1) =~= seq![q[0]]);
        assert(joined_params(q.take(2)) == param_text(q[0]) + seq!['&'] + param_text(q[1]));
    } else {
        let tail = q.skip(1);
        lemma_joined_params_take(tail, i - 1);
        assert(q.take(i + 1).skip(1) =~= tail.take(i));
        assert(q.take(i).skip(1) =~= tail.take(i - 1));
        assert(q.take(i + 1)[0] == q[0]);
        assert(q.take(i)[0] == q[0]);
        assert(tail[i - 1] == q[i]);
        assert((param_text(q[0]) + seq!['&'] + (joined_params(tail.take(i - 1)) + seq!['&']
            + param_text(q[i]))) =~= ((param_text(q[0]) + seq!['&'] + joined_params(
            tail.take(i - 1),
        )) + seq!['&'] + param_text(q[i])));
    }
}

/// Builds the redirect target: the request path, with every query
/// parameter but the refresh token and force flag carried over.
pub fn redirect_target(path: &str, query: &Vec<(String, String)>) -> (r: String)
    ensures
        r@ == spec_redirect_target(path@, pair_views(query@)),
{
    proof {
        reveal_strlit("refresh_token");
        reveal_strlit("force");
    }
    let ghost views = pair_views(query@);
    let mut kept: Vec<(String, String)> = Vec::new();
    let mut i: usize = 0;
    proof {
        assert(views.take(0) =~= Seq::<(Seq<char>, Seq<char>)>::empty());
        assert(kept_params(views.take(0)) =~= Seq::<(Seq<char>, Seq<char>)>::empty()) by {
            reveal(Seq::filter);
        }
        assert(pair_views(kept@) =~= Seq::<(Seq<char>, Seq<char>)>::empty());
    }
    while i < query.len()
        invariant
            i <= query@.len(),
            views == pair_views(query@),
            pair_views(kept@) == kept_params(views.take(i as int)),
        decreases query@.len() - i,
    {
        let ghost before = kept@;
        proof {
            lemma_kept_params_step(views, i as int);
            assert(views[i as int] == (query@[i as int].0@, query@[i as int].1@));
        }
        let keep = !crate::strings::str_eq(query[i].0.as_str(), "refresh_token")
            && !crate::strings::str_eq(query[i].0.as_str(), "force");
        if keep {
            let pair = (query[i].0.clone(), query[i].1.clone());
            kept.push(pair);
            proof {
                assert(pair_views(kept@) =~= pair_views(before).push(views[i as int]));
            }
        }
        i = i + 1;
    }
    proof {
        assert(views.take(views.len() as int) =~= views);
    }
    if kept.len() == 0 {
        return path.to_owned();
    }
    let ghost kviews = pair_views(kept@);
    let mut r = path.to_owned();
    proof {
        reveal_strlit("?");
        reveal_strlit("=");
        reveal_strlit("&");
    }
    r.append("?");
    r.append(kept[0].0.as_str());
    r.append("=");
    r.append(kept[0].1.as_str());
    let mut j: usize = 1;
    proof {
        assert("?"@ =~= seq!['?']);
        assert("="@ =~= seq!['=']);
        assert(kviews.take(1) =~= seq![kviews[0]]);
        assert(r@ =~= path@ + seq!['?'] + joined_params(kviews.take(1)));
    }
    while j < kept.len()
        invariant
            1 <= j <= kept@.len(),
            kviews == pair_views(kept@),
            r@ == path@ + seq!['?'] + joined_params(kviews.take(j as int)),
        decreases kept@.len() - j,
    {
        proof {
            reveal_strlit("&");
            reveal_strlit("=");
            lemma_joined_params_take(kviews, j as int);
        }
        r.append("&");
        r.append(kept[j].0.as_str());
        r.append("=");
        r.append(kept[j].1.as_str());
        proof {
            assert("&"@ =~= seq!['&']);
            assert("="@ =~= seq!['=']);
            assert(r@ =~= path@ + seq!['?'] + joined_params(kviews.take(j + 1)));
        }
        j = j + 1;
    }
    proof {
        assert(kviews.take(kviews.len() as int) =~= kviews);
    }
    r
}

/// What the `urlencoding` crate percent-decodes a query value to; the
/// result depends on the characters alone.
pub uninterp spec fn url_decoded(s: Seq<char>) -> Option<Seq<char>>;

/// Relies on urlencoding::decode: percent-decodes a query value,
/// refusing text whose decoded bytes are not valid UTF-8.
#[verifier::external_body]
fn url_decode(s: &str) -> (r: Option<String>)
    ensures
        match r {
            Some(t) => url_decoded(s@) == Some(t@),
            None => url_decoded(s@) is None,
        },
{
    match urlencoding::decode(s) {
        Ok(t) => Some(t.into_owned()),
        Err(_) => None,
    }
}

/// Whether a `force` query parameter asks to bypass the super-admin
/// guard: absent means no, a boolean value speaks for itself, and a
/// malformed value (`force` bare, or any unparsable text) means yes.
pub fn should_force_token_refresh<E>(query_param_value: Option<Result<bool, E>>) -> (r: bool)
    ensures
        r == match query_param_value {
            None => false,
            Some(Ok(b)) => b,
            Some(Err(_)) => true,
        },
{
    match query_param_value {
        None => false,
        Some(Ok(b)) => b,
        Some(Err(_)) => true,
    }
}

/// The query parameters the refresh middleware reads: the credential
/// itself, and the flag that bypasses the super-admin guard.
pub struct RefreshTokenQuery {
    pub refresh_token: Option<String>,
    pub force: bool,
}

/// What the refresh middleware decided for one request.
#[derive(Debug)]
pub enum RefreshOutcome {
    /// No refresh token was carried: the request passes through.
    Passthrough,
    /// The credential did not decode, or its own expiry check failed.
    Unauthorized,
    /// A revocation identifier matched the deny list: rejected with an
    /// explicit reason, since revocation is an operator action.
    Forbidden,
    /// The outside crate refused to rebuild a session token.
    Internal,
    /// Redirect to the same URL without the refresh parameters; when a
    /// session was minted, the new session-cookie value comes along.
    Redirect(Option<String>, String),
}

/// Runs the refresh protocol for one request: URL-decode and
/// padding-repair the credential, verify it against the root key, hold
/// its revocation identifiers against the deny list, evaluate its
/// expiry, apply the super-admin guard, and mint (and merge) a new
/// session token.
pub fn handle_refresh_token(
    refresh_token_param: Option<&String>,
    force: bool,
    path: &str,
    query: &Vec<(String, String)>,
    session: Option<&CapabilityToken>,
    registry: &RevocationRegistry,
    now: i64,
    root: &RootKey,
) -> (r: RefreshOutcome)
    ensures
        (refresh_token_param is None) <==> (r is Passthrough),
        match r {
            RefreshOutcome::Redirect(_, location) => location@ == spec_redirect_target(
                path@,
                pair_views(query@),
            ),
            _ => true,
        },
        match refresh_token_param {
            Some(p) => url_decoded(p@) is None ==> r is Unauthorized,
            None => true,
        },
        ((match session {
            Some(s) => contains_view(s.facts.profiles@, "*"@),
            None => false,
        }) && !force) ==> (match r {
            RefreshOutcome::Redirect(cookie, _) => cookie is None,
            _ => true,
        }),
        (session is None) ==> (match r {
            RefreshOutcome::Redirect(cookie, _) => cookie is Some,
            _ => true,
        }),
{
    let param = match refresh_token_param {
        Some(p) => p,
        None => {
            return RefreshOutcome::Passthrough;
        },
    };
    let decoded_text = match url_decode(param.as_str()) {
        Some(t) => t,
        None => {
            return RefreshOutcome::Unauthorized;
        },
    };
    let public_key = root.public();
    let refresh = match decode_token(decoded_text.as_str(), &public_key) {
        Ok(t) => t,
        Err(_) => {
            return RefreshOutcome::Unauthorized;
        },
    };
    let session_profiles = match session {
        Some(s) => Some(&s.facts.profiles),
        None => None,
    };
    let decision = refresh_decision(
        &refresh.facts,
        &refresh.revocation_ids,
        registry,
        now,
        session_profiles,
        force,
    );
    match decision {
        RefreshDecision::Forbidden => RefreshOutcome::Forbidden,
        RefreshDecision::Unauthorized => RefreshOutcome::Unauthorized,
        RefreshDecision::SkipNoOp => RefreshOutcome::Redirect(None, redirect_target(path, query)),
        RefreshDecision::Mint => {
            let baked = match bake_session_token(&refresh, root) {
                Ok(b) => b,
                Err(_) => {
                    return RefreshOutcome::Internal;
                },
            };
            let session_token = match session {
                Some(s) => {
                    match merge_tokens(&baked, s, root) {
                        Some(m) => m,
                        None => baked,
                    }
                },
                None => baked,
            };
            let cookie = match encode_token(&session_token) {
                Ok(c) => c,
                Err(_) => {
                    return RefreshOutcome::Internal;
                },
            };
            RefreshOutcome::Redirect(Some(cookie), redirect_target(path, query))
        },
    }
}

} // verus!
