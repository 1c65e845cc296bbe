//! Canonical identity of a site generation.
//!
//! A generation of the site is determined by the set of profiles that
//! influenced it. The identity is canonical: profiles are deduplicated
//! and sorted, and only profiles actually used by the content (plus the
//! `*` wildcard) are kept, so that any two requests granting the same
//! effective profile set share one cache entry and one output
//! directory.

use vstd::prelude::*;

use crate::strings::{contains_str, contains_view, lemma_lex_transitive, lemma_lex_trichotomy,
    lex_lt, str_eq, str_lt, views_of_strings};

verus! {

/// Profile names sorted strictly (no duplicates).
pub open spec fn sorted_strict(vs: Seq<String>) -> bool {
    forall|i: int, j: int| 0 <= i < j < vs.len() ==> lex_lt(vs[i]@, vs[j]@)
}

/// Canonical identity of one generation of the website: the sorted,
/// deduplicated set of profile names that influenced it.
pub struct WebsiteId {
    pub profiles: Vec<String>,
}

/// Inserts `s` into the sorted vector `v`, keeping it sorted and
/// duplicate-free.
fn insert_sorted_unique(v: &mut Vec<String>, s: &String)
    requires
        sorted_strict(old(v)@),
    ensures
        sorted_strict(final(v)@),
        forall|p: Seq<char>|
            contains_view(final(v)@, p) <==> (contains_view(old(v)@, p) || p == s@),
{
    let n = v.len();
    let mut i: usize = 0;
    while i < n && str_lt(v[i].as_str(), s.as_str())
        invariant
            i <= n,
            n == v@.len(),
            sorted_strict(v@),
            forall|j: int| 0 <= j < i ==> lex_lt(v@[j]@, s@),
        decreases n - i,
    {
        i = i + 1;
    }
    if i < n && str_eq(v[i].as_str(), s.as_str()) {
        proof {
            assert(v@[i as int]@ == s@);
            assert forall|p: Seq<char>|
                contains_view(v@, p) <==> (contains_view(v@, p) || p == s@) by {
                if p == s@ {
                    assert(v@[i as int]@ == p);
                }
            }
        }
        return ;
    }
    proof {
        if i < n {
            lemma_lex_trichotomy(v@[i as int]@, s@);
            assert(lex_lt(s@, v@[i as int]@));
        }
    }
    let ghost before = v@;
    v.insert(i, s.clone());
    proof {
        assert(v@.len() == before.len() + 1);
        assert(forall|j: int| 0 <= j < i ==> v@[j] == before[j]);
        assert(v@[i as int]@ == s@);
        assert(forall|j: int| i < j < v@.len() ==> v@[j] == before[j - 1]);
        assert forall|a: int, b: int| 0 <= a < b < v@.len() implies lex_lt(v@[a]@, v@[b]@) by {
            if b < i {
                assert(v@[a]@ == before[a]@ && v@[b]@ == before[b]@);
            } else if a > i {
                assert(v@[a]@ == before[a - 1]@ && v@[b]@ == before[b - 1]@);
            } else if a < i && b == i {
                assert(v@[a]@ == before[a]@ && v@[b]@ == s@);
            } else if a < i && b > i {
                assert(v@[a]@ == before[a]@ && v@[b]@ == before[b - 1]@);
            } else if a == i && b > i {
                // s sorts before the element it displaced, which sorts
                // before everything after it.
                assert(v@[a]@ == s@ && v@[b]@ == before[b - 1]@);
                if b - 1 > i {
                    lemma_lex_transitive(s@, before[i as int]@, before[b - 1]@);
                }
            }
        }
        assert forall|p: Seq<char>|
            contains_view(v@, p) <==> (contains_view(before, p) || p == s@) by {
            if contains_view(before, p) {
                let k = choose|k: int| 0 <= k < before.len() && before[k]@ == p;
                if k < i {
                    assert(v@[k]@ == p);
                } else {
                    assert(v@[k + 1]@ == p);
                }
            }
            if p == s@ {
                assert(v@[i as int]@ == p);
            }
            if contains_view(v@, p) {
                let k = choose|k: int| 0 <= k < v@.len() && v@[k]@ == p;
                if k < i {
                    assert(before[k]@ == p);
                } else if k > i {
                    assert(before[k - 1]@ == p);
                }
            }
        }
    }
}

/// `profiles` joined with `,` separators.
pub open spec fn join_comma(vs: Seq<Seq<char>>) -> Seq<char>
    decreases vs.len(),
{
    if vs.len() == 0 {
        Seq::empty()
    } else if vs.len() == 1 {
        vs[0]
    } else {
        vs[0] + seq![','] + join_comma(vs.skip(1))
    }
}

proof fn lemma_join_comma_take(vs: Seq<Seq<char>>, i: int)
    requires
        1 <= i < vs.len(),
    ensures
        join_comma(vs.take(i + 1)) == join_comma(vs.take(i)) + seq![','] + vs[i],
    decreases i,
{
    reveal_with_fuel(join_comma, 3);
    if i == 1 {
        assert(vs.take(2)[0] == vs[0]);
        assert(vs.take(2).skip(1) =~= seq![vs[1]]);
        assert(join_comma(vs.take(2)) == vs[0] + seq![','] + vs[1]);
        assert(vs.take(1) =~= seq![vs[0]]);
    } else {
        let tail = vs.skip(1);
        lemma_join_comma_take(tail, i - 1);
        assert(vs.take(i + 1).skip(1) =~= tail.take(i));
        assert(vs.take(i).skip(1) =~= tail.take(i - 1));
        assert(tail.take(i - 1)[0] == vs[1]);
        assert(join_comma(vs.take(i + 1)) == vs[0] + seq![','] + join_comma(tail.take(i)));
        assert(join_comma(vs.take(i)) == vs[0] + seq![','] + join_comma(tail.take(i - 1)));
        assert(tail[i - 1] == vs[i]);
        assert((vs[0] + seq![','] + (join_comma(tail.take(i - 1)) + seq![','] + tail[i - 1])) =~= (
        vs[0] + seq![','] + join_comma(tail.take(i - 1)) + seq![','] + vs[i]));
    }
}

/// The canonical name of this identity in specification form.
pub open spec fn spec_name(profiles: Seq<String>) -> Seq<char> {
    if profiles.len() == 0 {
        "_default"@
    } else {
        join_comma(views_of_strings(profiles))
    }
}

impl WebsiteId {
    /// A canonical identity is sorted and duplicate-free.
    pub open spec fn wf(&self) -> bool {
        sorted_strict(self.profiles@)
    }

    /// The canonical, deterministic name of this identity: the profiles
    /// sorted alphabetically and joined with `,`, or the default
    /// profile's name when no profile is granted.
    pub fn name(&self) -> (r: String)
        ensures
            r@ == spec_name(self.profiles@),
    {
        if self.profiles.len() == 0 {
            return "_default".to_owned();
        }
        let mut r = self.profiles[0].clone();
        let mut i: usize = 1;
        proof {
            assert(views_of_strings(self.profiles@).take(1) =~= seq![self.profiles@[0]@]);
        }
        while i < self.profiles.len()
            invariant
                1 <= i <= self.profiles@.len(),
                r@ == join_comma(views_of_strings(self.profiles@).take(i as int)),
            decreases self.profiles@.len() - i,
        {
            proof {
                reveal_strlit(",");
                lemma_join_comma_take(views_of_strings(self.profiles@), i as int);
            }
            r.append(",");
            r.append(self.profiles[i].as_str());
            proof {
                assert(seq![','] =~= ","@);
            }
            i = i + 1;
        }
        proof {
            assert(views_of_strings(self.profiles@).take(self.profiles@.len() as int)
                =~= views_of_strings(self.profiles@));
        }
        r
    }

    /// The name of the output directory that holds this identity's
    /// generation: `website@<name>`.
    pub fn dir_name(&self) -> (r: String)
        ensures
            r@ == "website@"@ + spec_name(self.profiles@),
    {
        let mut r = String::new();
        r.append("website@");
        let name = self.name();
        r.append(name.as_str());
        r
    }

    /// The canonical identity granted by `value`: deduplicated, sorted,
    /// and intersected with the profiles the content actually uses
    /// (always keeping the `*` wildcard); an empty grant maps to the
    /// default identity.
    pub fn from(value: &Vec<String>, used_profiles: &Vec<String>) -> (r: Self)
        ensures
            r.wf(),
            value@.len() == 0 ==> (r.profiles@.len() == 1 && r.profiles@[0]@ == "_default"@),
            value@.len() > 0 ==> forall|p: Seq<char>|
                contains_view(r.profiles@, p) <==> (contains_view(value@, p) && (contains_view(
                    used_profiles@,
                    p,
                ) || p == "*"@)),
    {
        if value.len() == 0 {
            return Self::default();
        }
        let mut profiles: Vec<String> = Vec::new();
        let mut i: usize = 0;
        while i < value.len()
            invariant
                i <= value@.len(),
                sorted_strict(profiles@),
                forall|p: Seq<char>|
                    contains_view(profiles@, p) <==> (contains_view(value@.take(i as int), p) && (
                    contains_view(used_profiles@, p) || p == "*"@)),
            decreases value@.len() - i,
        {
            let keep = contains_str(used_profiles, value[i].as_str()) || str_eq(
                value[i].as_str(),
                "*",
            );
            let ghost before = profiles@;
            if keep {
                insert_sorted_unique(&mut profiles, &value[i]);
            }
            proof {
                assert forall|p: Seq<char>|
                    contains_view(value@.take(i + 1), p) <==> (contains_view(
                        value@.take(i as int),
                        p,
                    ) || p == value@[i as int]@) by {
                    if contains_view(value@.take(i + 1), p) {
                        let k = choose|k: int|
                            0 <= k < value@.take(i + 1).len() && #[trigger] value@.take(
                                i + 1,
                            )[k]@ == p;
                        if k < i {
                            assert(value@.take(i as int)[k]@ == p);
                        }
                    }
                    if contains_view(value@.take(i as int), p) {
                        let k = choose|k: int|
                            0 <= k < value@.take(i as int).len() && #[trigger] value@.take(
                                i as int,
                            )[k]@ == p;
                        assert(value@.take(i + 1)[k]@ == p);
                    }
                    if p == value@[i as int]@ {
                        assert(value@.take(i + 1)[i as int]@ == p);
                    }
                }
            }
            i = i + 1;
        }
        proof {
            assert(value@.take(value@.len() as int) =~= value@);
        }
        WebsiteId { profiles }
    }
}

impl Default for WebsiteId {
    /// The identity of the public site: the default profile alone.
    fn default() -> (r: Self)
        ensures
            r.wf(),
            spec_name(r.profiles@) == "_default"@,
            r.profiles@.len() == 1,
            r.profiles@[0]@ == "_default"@,
    {
        let mut profiles: Vec<String> = Vec::new();
        profiles.push("_default".to_owned());
        proof {
            assert(views_of_strings(profiles@) =~= seq!["_default"@]);
        }
        WebsiteId { profiles }
    }
}

/// A sorted, duplicate-free profile vector is determined by its
/// profile set: two canonical identities built from the same effective
/// grants are one and the same.
pub proof fn lemma_sorted_unique(a: Seq<String>, b: Seq<String>)
    requires
        sorted_strict(a),
        sorted_strict(b),
        forall|p: Seq<char>| contains_view(a, p) <==> contains_view(b, p),
    ensures
        views_of_strings(a) == views_of_strings(b),
    decreases a.len(),
{
    if a.len() == 0 {
        if b.len() > 0 {
            assert(contains_view(b, b[0]@));
            assert(contains_view(a, b[0]@));
        }
        assert(views_of_strings(a) =~= views_of_strings(b));
    } else {
        assert(contains_view(a, a[0]@));
        let k = choose|k: int| 0 <= k < b.len() && b[k]@ == a[0]@;
        assert(contains_view(b, b[0]@));
        let m = choose|m: int| 0 <= m < a.len() && a[m]@ == b[0]@;
        if k > 0 && m > 0 {
            assert(lex_lt(b[0]@, b[k]@));
            assert(lex_lt(a[0]@, a[m]@));
            crate::strings::lemma_lex_transitive(a[0]@, b[0]@, a[0]@);
            crate::strings::lemma_lex_irreflexive(a[0]@);
        }
        assert(a[0]@ == b[0]@);
        let a1 = a.skip(1);
        let b1 = b.skip(1);
        assert forall|p: Seq<char>| contains_view(a1, p) <==> contains_view(b1, p) by {
            if contains_view(a1, p) {
                let j = choose|j: int| 0 <= j < a1.len() && a1[j]@ == p;
                assert(a[j + 1]@ == p);
                assert(contains_view(a, p));
                let n = choose|n: int| 0 <= n < b.len() && b[n]@ == p;
                if n == 0 {
                    assert(lex_lt(a[0]@, a[j + 1]@));
                    crate::strings::lemma_lex_irreflexive(p);
                }
                assert(b1[n - 1]@ == p);
            }
            if contains_view(b1, p) {
                let j = choose|j: int| 0 <= j < b1.len() && b1[j]@ == p;
                assert(b[j + 1]@ == p);
                assert(contains_view(b, p));
                let n = choose|n: int| 0 <= n < a.len() && a[n]@ == p;
                if n == 0 {
                    assert(lex_lt(b[0]@, b[j + 1]@));
                    crate::strings::lemma_lex_irreflexive(p);
                }
                assert(a1[n - 1]@ == p);
            }
        }
        assert(sorted_strict(a1)) by {
            assert forall|x: int, y: int| 0 <= x < y < a1.len() implies lex_lt(
                a1[x]@,
                a1[y]@,
            ) by {
                assert(a1[x] == a[x + 1] && a1[y] == a[y + 1]);
            }
        }
        assert(sorted_strict(b1)) by {
            assert forall|x: int, y: int| 0 <= x < y < b1.len() implies lex_lt(
                b1[x]@,
                b1[y]@,
            ) by {
                assert(b1[x] == b[x + 1] && b1[y] == b[y + 1]);
            }
        }
        lemma_sorted_unique(a1, b1);
        assert(views_of_strings(a) =~= seq![a[0]@] + views_of_strings(a1));
        assert(views_of_strings(b) =~= seq![b[0]@] + views_of_strings(b1));
    }
}

/// Canonicalization: two website identities whose profile sets agree
/// are the same identity — same profile list, same name, and therefore
/// the same cache entry and output directory.
pub proof fn lemma_website_id_canonical(x: WebsiteId, y: WebsiteId)
    requires
        x.wf(),
        y.wf(),
        forall|p: Seq<char>| contains_view(x.profiles@, p) <==> contains_view(y.profiles@, p),
    ensures
        views_of_strings(x.profiles@) == views_of_strings(y.profiles@),
        spec_name(x.profiles@) == spec_name(y.profiles@),
{
    lemma_sorted_unique(x.profiles@, y.profiles@);
    assert(x.profiles@.len() == y.profiles@.len()) by {
        assert(views_of_strings(x.profiles@).len() == x.profiles@.len());
    }
}

/// The path of the website directory for a canonical identity, under
/// the destination directory `dest_dir`: unique and predictable, the
/// destination suffixed with `/website@<name>`.
pub fn website_dir(dest_dir: &str, id: &WebsiteId) -> (r: String)
    ensures
        r@ == dest_dir@ + "/"@ + "website@"@ + spec_name(id.profiles@),
{
    let mut r = dest_dir.to_owned();
    r.append("/");
    let dir = id.dir_name();
    r.append(dir.as_str());
    r
}

} // verus!
