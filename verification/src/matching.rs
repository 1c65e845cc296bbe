//! Resolution of a requested path to the stored content variants that
//! may serve it.
//!
//! Generated pages are stored under keys of the form `<path>@<profile>`,
//! one variant per profile that may read the page; plain static files
//! are stored under their bare path. A request path matches a stored
//! key under the index-file elision rule: any trailing `index.html` is
//! stripped from the query, the key must start with the result, and
//! what remains of the key (after leading slashes and an optional
//! `index.html`) must be empty or begin with the `@` profile delimiter.

use vstd::prelude::*;

use crate::strings::{str_ends_with, str_starts_with, views_of_strings};

verus! {

/// `s` without `suffix` at its end; `s` unchanged when the suffix is
/// not there.
pub open spec fn strip_suffix(s: Seq<char>, suffix: Seq<char>) -> Seq<char> {
    if suffix.len() <= s.len() && s.skip(s.len() - suffix.len()) == suffix {
        s.take(s.len() - suffix.len())
    } else {
        s
    }
}

/// `s` without `prefix` at its start; `s` unchanged when the prefix is
/// not there.
pub open spec fn strip_prefix(s: Seq<char>, prefix: Seq<char>) -> Seq<char> {
    if prefix.len() <= s.len() && s.take(prefix.len() as int) == prefix {
        s.skip(prefix.len() as int)
    } else {
        s
    }
}

/// `s` without its leading `/` characters.
pub open spec fn drop_leading_slashes(s: Seq<char>) -> Seq<char>
    decreases s.len(),
{
    if s.len() > 0 && s[0] == '/' {
        drop_leading_slashes(s.skip(1))
    } else {
        s
    }
}

/// Whether the stored key `key` serves the query once the query's
/// trailing `index.html` has already been stripped to `q`.
pub open spec fn key_matches_stripped(q: Seq<char>, key: Seq<char>) -> bool {
    &&& q.len() <= key.len()
    &&& key.take(q.len() as int) == q
    &&& {
        let tail = strip_prefix(drop_leading_slashes(key.skip(q.len() as int)), "index.html"@);
        tail.len() == 0 || tail[0] == '@'
    }
}

/// Whether the stored key `key` serves the query path `query` under the
/// index-file elision rule.
pub open spec fn key_matches(query: Seq<char>, key: Seq<char>) -> bool {
    key_matches_stripped(strip_suffix(query, "index.html"@), key)
}

/// The query with any trailing `index.html` removed, so that `/foo/`
/// and `/foo/index.html` resolve alike.
fn strip_index_html_suffix<'a>(query: &'a str) -> (r: &'a str)
    ensures
        r@ == strip_suffix(query@, "index.html"@),
{
    proof {
        reveal_strlit("index.html");
    }
    if str_ends_with(query, "index.html") {
        let n = query.unicode_len();
        query.substring_char(0, n - 10)
    } else {
        query
    }
}

/// Decides `key_matches_stripped` for one stored key.
fn key_matches_from(q: &str, key: &str) -> (r: bool)
    ensures
        r == key_matches_stripped(q@, key@),
{
    if !str_starts_with(key, q) {
        return false;
    }
    let nq = q.unicode_len();
    let nk = key.unicode_len();
    let mut i: usize = nq;
    while i < nk && key.get_char(i) == '/'
        invariant
            nq <= i <= nk,
            nk as nat == key@.len(),
            nq as nat == q@.len(),
            drop_leading_slashes(key@.skip(nq as int)) == drop_leading_slashes(key@.skip(i as int)),
        decreases nk - i,
    {
        proof {
            assert(key@.skip(i as int).skip(1) =~= key@.skip(i as int + 1));
        }
        i = i + 1;
    }
    proof {
        if i < nk {
            assert(drop_leading_slashes(key@.skip(i as int)) == key@.skip(i as int));
        } else {
            assert(key@.skip(i as int) =~= Seq::<char>::empty());
        }
    }
    let rest = key.substring_char(i, nk);
    proof {
        assert(rest@ =~= key@.skip(i as int));
        reveal_strlit("index.html");
    }
    let tail: &str = if str_starts_with(rest, "index.html") {
        rest.substring_char(10, rest.unicode_len())
    } else {
        rest
    };
    proof {
        assert(tail@ == strip_prefix(rest@, "index.html"@));
    }
    if tail.unicode_len() == 0 {
        true
    } else {
        tail.get_char(0) == '@'
    }
}

/// The subsequence of `keys`, in order, that match `query`.
pub open spec fn matching_keys(query: Seq<char>, keys: Seq<Seq<char>>) -> Seq<Seq<char>> {
    keys.filter(|k: Seq<char>| key_matches(query, k))
}

proof fn lemma_matching_keys_step(query: Seq<char>, keys: Seq<Seq<char>>, i: int)
    requires
        0 <= i < keys.len(),
    ensures
        key_matches(query, keys[i]) ==> matching_keys(query, keys.take(i + 1)) == matching_keys(
            query,
            keys.take(i),
        ).push(keys[i]),
        !key_matches(query, keys[i]) ==> matching_keys(query, keys.take(i + 1)) == matching_keys(
            query,
            keys.take(i),
        ),
{
    reveal(Seq::filter);
    assert(keys.take(i + 1).drop_last() =~= keys.take(i));
    assert(keys.take(i + 1).last() == keys[i]);
}

/// Lists, in storage enumeration order, the stored object keys that may
/// serve the request path `query`.
pub fn matching_files(query: &str, stored_objects: &Vec<String>) -> (r: Vec<String>)
    ensures
        views_of_strings(r@) == matching_keys(query@, views_of_strings(stored_objects@)),
{
    let stripped = strip_index_html_suffix(query);
    let mut r: Vec<String> = Vec::new();
    let mut i: usize = 0;
    while i < stored_objects.len()
        invariant
            i <= stored_objects.len(),
            stripped@ == strip_suffix(query@, "index.html"@),
            views_of_strings(r@) == matching_keys(query@, views_of_strings(stored_objects@).take(i as int)),
        decreases stored_objects.len() - i,
    {
        let ghost keys = views_of_strings(stored_objects@);
        let ghost before = r@;
        let keep = key_matches_from(stripped, &stored_objects[i]);
        if keep {
            r.push(stored_objects[i].clone());
        }
        proof {
            lemma_matching_keys_step(query@, keys, i as int);
            if keep {
                assert(views_of_strings(r@) =~= views_of_strings(before).push(keys[i as int]));
            }
        }
        i = i + 1;
    }
    proof {
        assert(views_of_strings(stored_objects@).take(stored_objects@.len() as int) =~= views_of_strings(
            stored_objects@,
        ));
    }
    r
}

} // verus!
