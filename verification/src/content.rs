//! The content authorizer: resolving a request path to the stored
//! variant it may serve.
//!
//! The first stored key matching the request (in storage enumeration
//! order) decides the page. An object without a metadata sidecar is a
//! plain static file and is served unconditionally. Otherwise the
//! page's allowed profiles are tried in declared order, and the first
//! profile the token authorizes selects the stored variant carrying
//! that profile's suffix — the choice decides which content bytes are
//! served, not merely whether access is granted. When no profile
//! authorizes, the request is denied, and the denial is surfaced as
//! "not found", never as "forbidden", so that page existence is not
//! leaked.

use vstd::prelude::*;

use crate::authz::{first_authorized_profile, spec_authorized, TokenFacts};
use crate::matching::{matching_files, matching_keys};
use crate::pages::{metadata_base_key, PageMetadata};
use crate::strings::{find_last, str_eq, views_of_strings};

verus! {

/// The first sidecar paired with `key`, in store order.
pub open spec fn lookup_meta(sidecars: Seq<(String, PageMetadata)>, key: Seq<char>) -> Option<
    PageMetadata,
>
    decreases sidecars.len(),
{
    if sidecars.len() == 0 {
        None
    } else if sidecars[0].0@ == key {
        Some(sidecars[0].1)
    } else {
        lookup_meta(sidecars.skip(1), key)
    }
}

/// Finds the first sidecar stored under `key`.
fn find_meta<'a>(sidecars: &'a Vec<(String, PageMetadata)>, key: &str) -> (r: Option<
    &'a PageMetadata,
>)
    ensures
        match r {
            Some(m) => lookup_meta(sidecars@, key@) == Some(*m),
            None => lookup_meta(sidecars@, key@) is None,
        },
{
    let n = sidecars.len();
    let mut i: usize = 0;
    proof {
        assert(sidecars@.skip(0) =~= sidecars@);
    }
    while i < n
        invariant
            i <= n,
            n == sidecars@.len(),
            lookup_meta(sidecars@, key@) == lookup_meta(sidecars@.skip(i as int), key@),
        decreases n - i,
    {
        proof {
            assert(sidecars@.skip(i as int)[0] == sidecars@[i as int]);
            assert(sidecars@.skip(i as int).skip(1) =~= sidecars@.skip(i as int + 1));
        }
        if str_eq(sidecars[i].0.as_str(), key) {
            return Some(&sidecars[i].1);
        }
        i = i + 1;
    }
    proof {
        assert(sidecars@.skip(n as int) =~= Seq::<(String, PageMetadata)>::empty());
    }
    None
}

/// Whether `k` is the variant key that the page `meta` serves for this
/// token: the base key suffixed with the **first** allowed profile the
/// token authorizes — no earlier allowed profile is authorized, since
/// the choice decides which stored bytes are served.
pub open spec fn serves_variant(
    k: Seq<char>,
    base: Seq<char>,
    meta: PageMetadata,
    token: Option<&TokenFacts>,
    now: i64,
) -> bool {
    exists|i: int|
        0 <= i < meta.read_allowed.0@.len() && spec_authorized(
            token,
            (#[trigger] meta.read_allowed.0@[i])@,
            now,
        ) && k == base + "@"@ + meta.read_allowed.0@[i]@ && (forall|j: int|
            0 <= j < i ==> !spec_authorized(token, (#[trigger] meta.read_allowed.0@[j])@, now))
}

/// Whether the token authorizes none of the page's allowed profiles.
pub open spec fn denies_all(meta: PageMetadata, token: Option<&TokenFacts>, now: i64) -> bool {
    forall|i: int|
        0 <= i < meta.read_allowed.0@.len() ==> !spec_authorized(
            token,
            (#[trigger] meta.read_allowed.0@[i])@,
            now,
        )
}

/// The profiles allowed to read the page stored under `object_key`:
/// the declared list of its sidecar (the `@<profile>` suffix is dropped
/// to locate it), or nothing when the object is a plain static file.
pub fn allowed_profiles(
    sidecars: &Vec<(String, PageMetadata)>,
    object_key: &str,
) -> (r: Option<Vec<String>>)
    ensures
        ({
            let base = match find_last(object_key@, '@') {
                Some(i) => object_key@.take(i),
                None => object_key@,
            };
            match r {
                Some(profiles) => match lookup_meta(sidecars@, base) {
                    Some(meta) => profiles@ == meta.read_allowed.0@,
                    None => false,
                },
                None => lookup_meta(sidecars@, base) is None,
            }
        }),
{
    let base = metadata_base_key(object_key);
    match find_meta(sidecars, base.as_str()) {
        Some(meta) => Some(meta.read_allowed.0.clone()),
        None => None,
    }
}

/// What the content authorizer decided for one request.
pub enum ContentDecision {
    /// No stored object matches the path.
    NotFound,
    /// The matched object has no sidecar: a plain static file, served
    /// unconditionally under its key.
    ServeStatic(String),
    /// The page is readable: serve the variant of the matched page
    /// selected by the first allowed profile the token authorizes.
    ServeVariant(String),
    /// A page exists but no allowed profile is authorized; surfaced to
    /// the client as "not found".
    Denied,
}

/// Resolves one request: picks the first stored object matching the
/// decoded request path, reads its page's sidecar, and serves the
/// variant selected by the first allowed profile the token authorizes.
#[verifier::rlimit(50)]
pub fn resolve_content(
    path: &str,
    stored_objects: &Vec<String>,
    sidecars: &Vec<(String, PageMetadata)>,
    token: Option<&TokenFacts>,
    now: i64,
) -> (r: ContentDecision)
    ensures
        (r is NotFound) <==> matching_keys(path@, views_of_strings(stored_objects@)).len() == 0,
        (match r {
            ContentDecision::ServeStatic(k) => {
                let first = matching_keys(path@, views_of_strings(stored_objects@))[0];
                let base = match find_last(first, '@') {
                    Some(i) => first.take(i),
                    None => first,
                };
                k@ == first && lookup_meta(sidecars@, base) is None
            },
            _ => true,
        }),
        (match r {
            ContentDecision::ServeVariant(k) => {
                let first = matching_keys(path@, views_of_strings(stored_objects@))[0];
                let base = match find_last(first, '@') {
                    Some(i) => first.take(i),
                    None => first,
                };
                match lookup_meta(sidecars@, base) {
                    Some(meta) => serves_variant(k@, base, meta, token, now),
                    None => false,
                }
            },
            _ => true,
        }),
        (match r {
            ContentDecision::Denied => {
                let first = matching_keys(path@, views_of_strings(stored_objects@))[0];
                let base = match find_last(first, '@') {
                    Some(i) => first.take(i),
                    None => first,
                };
                match lookup_meta(sidecars@, base) {
                    Some(meta) => denies_all(meta, token, now),
                    None => false,
                }
            },
            _ => true,
        }),
{
    let matches = matching_files(path, stored_objects);
    if matches.len() == 0 {
        proof {
            assert(views_of_strings(matches@).len() == 0);
        }
        return ContentDecision::NotFound;
    }
    let first = &matches[0];
    proof {
        assert(views_of_strings(matches@)[0] == first@);
    }
    let base = metadata_base_key(first.as_str());
    match find_meta(sidecars, base.as_str()) {
        None => ContentDecision::ServeStatic(first.clone()),
        Some(meta) => {
            match first_authorized_profile(token, &meta.read_allowed.0, now) {
                Some(i) => {
                    let mut variant = base;
                    proof {
                        reveal_strlit("@");
                    }
                    variant.append("@");
                    variant.append(meta.read_allowed.0[i].as_str());
                    proof {
                        let firstk = matching_keys(path@, views_of_strings(stored_objects@))[0];
                        let sbase = match find_last(firstk, '@') {
                            Some(k) => firstk.take(k),
                            None => firstk,
                        };
                        assert(sbase == base@);
                        let smeta = lookup_meta(sidecars@, sbase)->Some_0;
                        assert(smeta == *meta);
                        assert((i as int) < smeta.read_allowed.0@.len());
                        assert(spec_authorized(token, smeta.read_allowed.0@[i as int]@, now));
                        assert(variant@ == sbase + "@"@ + smeta.read_allowed.0@[i as int]@);
                        assert forall|j: int| 0 <= j < i implies !spec_authorized(
                            token,
                            (#[trigger] smeta.read_allowed.0@[j])@,
                            now,
                        ) by {
                            assert(!spec_authorized(token, meta.read_allowed.0@[j]@, now));
                        }
                        assert(serves_variant(variant@, sbase, smeta, token, now));
                    }
                    ContentDecision::ServeVariant(variant)
                },
                None => ContentDecision::Denied,
            }
        },
    }
}

} // verus!
