//! Observability state and the admin endpoints' decisions.
//!
//! The process keeps in-memory error and access logs, append-only for
//! the process lifetime, and every admin endpoint is gated on the `*`
//! super-admin wildcard. The access-token generator form lets an admin
//! mint refresh credentials, but never ones carrying the wildcard
//! itself.

use vstd::prelude::*;

use crate::strings::{contains_str, contains_view, split_on, split_on_char,
    views_of_strings};

verus! {

/// One recorded runtime error.
pub struct ErrorLog {
    pub timestamp_secs: i64,
    pub line: String,
}

/// One recorded page access: in this system a "user" is the list of
/// profiles the request carried.
pub struct AccessLog {
    pub timestamp_secs: i64,
    pub user: Vec<String>,
    pub path: String,
}

/// Appends one access record; the logs only ever grow during the
/// process lifetime.
pub fn log_access(logs: &mut Vec<AccessLog>, timestamp_secs: i64, user: Vec<String>, path: String)
    ensures
        final (logs)@.len() == old(logs)@.len() + 1,
        forall|i: int| 0 <= i < old(logs)@.len() ==> final (logs)@[i] == old(logs)@[i],
        final (logs)@.last().timestamp_secs == timestamp_secs,
        final (logs)@.last().user == user,
        final (logs)@.last().path == path,
{
    logs.push(AccessLog { timestamp_secs, user, path });
}

/// Appends one error record.
pub fn log_error(logs: &mut Vec<ErrorLog>, timestamp_secs: i64, line: String)
    ensures
        final (logs)@.len() == old(logs)@.len() + 1,
        forall|i: int| 0 <= i < old(logs)@.len() ==> final (logs)@[i] == old(logs)@[i],
        final (logs)@.last().timestamp_secs == timestamp_secs,
        final (logs)@.last().line == line,
{
    logs.push(ErrorLog { timestamp_secs, line });
}

/// Whether the granted profiles carry the super-admin wildcard: the
/// gate of every admin endpoint.
pub fn is_admin(profiles: &Vec<String>) -> (r: bool)
    ensures
        r == contains_view(profiles@, "*"@),
{
    contains_str(profiles, "*")
}

/// What the access-token generator form submits.
pub struct GenerateTokenForm {
    pub ttl: String,
    pub name: String,
    pub profiles: String,
    pub url: String,
}

/// The profile list a generated token will carry: the bearer's name
/// followed by the comma-separated profiles, exactly as split. A list
/// that would carry the `*` wildcard is refused: the form never mints a
/// super-admin credential. Inputs free of the `*` character are always
/// accepted.
pub fn generate_token_profiles(name: &String, profiles_csv: &str) -> (r: Result<
    Vec<String>,
    String,
>)
    ensures
        r is Ok ==> views_of_strings(r->Ok_0@) == seq![name@] + split_on(',', profiles_csv@),
        r is Ok ==> !contains_view(r->Ok_0@, "*"@),
        r is Err <==> (name@ == "*"@ || exists|i: int|
            0 <= i < split_on(',', profiles_csv@).len() && split_on(',', profiles_csv@)[i]
                == "*"@),
        (!str_has_star(name@) && !str_has_star(profiles_csv@)) ==> r is Ok,
{
    proof {
        reveal_strlit("*");
    }
    let ghost pieces_view = split_on(',', profiles_csv@);
    let mut profiles: Vec<String> = Vec::new();
    profiles.push(name.clone());
    let mut pieces = split_on_char(profiles_csv, ',');
    profiles.append(&mut pieces);
    proof {
        assert(views_of_strings(profiles@) =~= seq![name@] + pieces_view);
        assert(contains_view(profiles@, "*"@) <==> (name@ == "*"@ || exists|i: int|
            0 <= i < pieces_view.len() && pieces_view[i] == "*"@)) by {
            if contains_view(profiles@, "*"@) {
                let k = choose|k: int| 0 <= k < profiles@.len() && profiles@[k]@ == "*"@;
                if k > 0 {
                    assert(pieces_view[k - 1] == "*"@);
                }
            }
            if name@ == "*"@ {
                assert(profiles@[0]@ == "*"@);
            }
            if exists|i: int| 0 <= i < pieces_view.len() && pieces_view[i] == "*"@ {
                let i = choose|i: int| 0 <= i < pieces_view.len() && pieces_view[i] == "*"@;
                assert(profiles@[i + 1]@ == "*"@);
            }
        }
        if !str_has_star(name@) && !str_has_star(profiles_csv@) {
            crate::strings::lemma_split_on_free_of(',', profiles_csv@, '*');
            assert(!contains_view(profiles@, "*"@)) by {
                if contains_view(profiles@, "*"@) {
                    let k = choose|k: int| 0 <= k < profiles@.len() && profiles@[k]@ == "*"@;
                    assert(profiles@[k]@[0] == '*');
                    if k > 0 {
                        assert(crate::strings::seq_free_of(pieces_view[k - 1], '*'));
                    }
                }
            }
        }
    }
    if contains_str(&profiles, "*") {
        return Err("Profiles cannot contain '*'.".to_owned());
    }
    Ok(profiles)
}

/// Whether the text contains the wildcard character.
pub open spec fn str_has_star(s: Seq<char>) -> bool {
    exists|j: int| 0 <= j < s.len() && s[j] == '*'
}

} // verus!
