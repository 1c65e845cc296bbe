//! Per-page metadata and the path conventions of the generated site.
//!
//! The external generator writes one metadata sidecar per page, naming
//! the profiles allowed to read it; a page whose sidecar is absent, or
//! whose allowed list is null or empty, is public (readable under the
//! default profile). Stored object keys carry an `@<profile>` suffix
//! for profile-gated variants and a bare path for static files.

use vstd::prelude::*;

use crate::strings::{contains_view, find_last, str_eq, str_rfind, views_of_strings};

verus! {

/// The profiles allowed to read one page, as declared by its sidecar.
pub struct ReadAllowed(pub Vec<String>);

impl Default for ReadAllowed {
    /// A page that declares nothing is public: readable under the
    /// default profile alone.
    fn default() -> (r: Self)
        ensures
            r.0@.len() == 1,
            r.0@[0]@ == "_default"@,
    {
        let mut v: Vec<String> = Vec::new();
        v.push("_default".to_owned());
        ReadAllowed(v)
    }
}

/// The sidecar record of one generated page.
pub struct PageMetadata {
    pub read_allowed: ReadAllowed,
    pub path: String,
}

/// The effective allowed-profile list of a page: the declared list, or
/// the default profile when the list is absent, null or empty.
pub fn read_allowed(declared: Option<Vec<String>>) -> (r: Vec<String>)
    ensures
        match declared {
            Some(v) => if v@.len() == 0 {
                r@.len() == 1 && r@[0]@ == "_default"@
            } else {
                r@ == v@
            },
            None => r@.len() == 1 && r@[0]@ == "_default"@,
        },
{
    match declared {
        Some(v) => {
            if v.len() == 0 {
                ReadAllowed::default().0
            } else {
                v
            }
        },
        None => ReadAllowed::default().0,
    }
}

/// Whether some page of `metas` allows `p` to read it.
pub open spec fn some_page_allows(metas: Seq<PageMetadata>, n: int, p: Seq<char>) -> bool {
    exists|i: int| 0 <= i < n && contains_view((#[trigger] metas[i]).read_allowed.0@, p)
}

/// Collects every profile that the content actually uses: the union of
/// all pages' allowed-profile lists. Canonical website identities are
/// intersected against this set.
pub fn used_profiles(metas: &Vec<PageMetadata>) -> (r: Vec<String>)
    ensures
        forall|p: Seq<char>|
            contains_view(r@, p) <==> some_page_allows(metas@, metas@.len() as int, p),
{
    let mut r: Vec<String> = Vec::new();
    let mut i: usize = 0;
    while i < metas.len()
        invariant
            i <= metas@.len(),
            forall|p: Seq<char>| contains_view(r@, p) <==> some_page_allows(metas@, i as int, p),
        decreases metas@.len() - i,
    {
        let allowed = &metas[i].read_allowed.0;
        let mut j: usize = 0;
        while j < allowed.len()
            invariant
                i < metas@.len(),
                j <= allowed@.len(),
                allowed@ == metas@[i as int].read_allowed.0@,
                forall|p: Seq<char>|
                    contains_view(r@, p) <==> (some_page_allows(metas@, i as int, p) || exists|
                        k: int,
                    | 0 <= k < j && (#[trigger] allowed@[k])@ == p),
            decreases allowed@.len() - j,
        {
            let ghost before = r@;
            r.push(allowed[j].clone());
            proof {
                assert(r@[r@.len() - 1]@ == allowed@[j as int]@);
                assert forall|p: Seq<char>|
                    contains_view(r@, p) <==> (some_page_allows(metas@, i as int, p) || exists|
                        k: int,
                    | 0 <= k < j + 1 && (#[trigger] allowed@[k])@ == p) by {
                    if contains_view(r@, p) {
                        let m = choose|m: int| 0 <= m < r@.len() && r@[m]@ == p;
                        if m < before.len() {
                            assert(before[m]@ == p);
                            assert(contains_view(before, p));
                        } else {
                            assert(allowed@[j as int]@ == p);
                        }
                    }
                    if some_page_allows(metas@, i as int, p) || (exists|k: int|
                        0 <= k < j + 1 && (#[trigger] allowed@[k])@ == p) {
                        if exists|k: int| 0 <= k < j + 1 && (#[trigger] allowed@[k])@ == p {
                            let k = choose|k: int|
                                0 <= k < j + 1 && (#[trigger] allowed@[k])@ == p;
                            if k < j {
                                assert(contains_view(before, p));
                                let m = choose|m: int| 0 <= m < before.len() && before[m]@ == p;
                                assert(r@[m]@ == p);
                            } else {
                                assert(r@[r@.len() - 1]@ == p);
                            }
                        } else {
                            assert(contains_view(before, p));
                            let m = choose|m: int| 0 <= m < before.len() && before[m]@ == p;
                            assert(r@[m]@ == p);
                        }
                    }
                }
            }
            j = j + 1;
        }
        proof {
            assert forall|p: Seq<char>|
                contains_view(r@, p) <==> some_page_allows(metas@, i + 1, p) by {
                if contains_view(r@, p) {
                    if some_page_allows(metas@, i as int, p) {
                        let m = choose|m: int|
                            0 <= m < i && contains_view(
                                (#[trigger] metas@[m]).read_allowed.0@,
                                p,
                            );
                        assert(some_page_allows(metas@, i + 1, p));
                    } else {
                        assert(contains_view(metas@[i as int].read_allowed.0@, p));
                        assert(some_page_allows(metas@, i + 1, p));
                    }
                }
                if some_page_allows(metas@, i + 1, p) {
                    let m = choose|m: int|
                        0 <= m < i + 1 && contains_view((#[trigger] metas@[m]).read_allowed.0@, p);
                    if m < i {
                        assert(some_page_allows(metas@, i as int, p));
                    } else {
                        let k = choose|k: int|
                            0 <= k < allowed@.len() && (#[trigger] allowed@[k])@ == p;
                        assert(0 <= k < allowed@.len() && allowed@[k]@ == p);
                    }
                }
            }
        }
        i = i + 1;
    }
    r
}

/// The set of profiles in use across the whole content tree (alias of
/// `used_profiles`, kept under the name the site-scanning tool used).
pub fn all_profiles(metas: &Vec<PageMetadata>) -> (r: Vec<String>)
    ensures
        forall|p: Seq<char>|
            contains_view(r@, p) <==> some_page_allows(metas@, metas@.len() as int, p),
{
    used_profiles(metas)
}

/// `s` with everything from the last `.` of its final path component
/// removed: no `.` after the last `/` leaves `s` unchanged.
pub open spec fn spec_drop_extension(s: Seq<char>) -> Seq<char> {
    match find_last(s, '.') {
        Some(i) => match find_last(s, '/') {
            Some(j) => if j < i {
                s.take(i)
            } else {
                s
            },
            None => s.take(i),
        },
        None => s,
    }
}

/// `s` without one leading `/`.
pub open spec fn spec_strip_leading_slash(s: Seq<char>) -> Seq<char> {
    if s.len() > 0 && s[0] == '/' {
        s.skip(1)
    } else {
        s
    }
}

/// The sidecar path of a page: the page's relative path with its
/// extension replaced by the metadata extension, made relative, under
/// the data directory.
pub open spec fn spec_data_file_path(data_dir: Seq<char>, rel: Seq<char>) -> Seq<char> {
    data_dir + "/"@ + spec_strip_leading_slash(spec_drop_extension(rel) + ".orangutan"@)
}

/// Replaces the final component's extension with the metadata
/// extension.
fn with_metadata_extension(rel: &str) -> (r: String)
    ensures
        r@ == spec_drop_extension(rel@) + ".orangutan"@,
{
    let cut: &str = match str_rfind(rel, '.') {
        Some(i) => {
            let keep = match str_rfind(rel, '/') {
                Some(j) => j < i,
                None => true,
            };
            if keep {
                rel.substring_char(0, i)
            } else {
                rel
            }
        },
        None => rel,
    };
    proof {
        assert(cut@ == spec_drop_extension(rel@));
    }
    let mut r = cut.to_owned();
    r.append(".orangutan");
    r
}

/// The path of the metadata sidecar that describes the page at
/// `page_relpath`, under the data directory.
pub fn data_file_path(data_dir: &str, page_relpath: &str) -> (r: String)
    ensures
        r@ == spec_data_file_path(data_dir@, page_relpath@),
{
    let with_ext = with_metadata_extension(page_relpath);
    let n = with_ext.as_str().unicode_len();
    let relative: &str = if n > 0 && with_ext.as_str().get_char(0) == '/' {
        with_ext.as_str().substring_char(1, n)
    } else {
        with_ext.as_str()
    };
    proof {
        assert(relative@ == spec_strip_leading_slash(with_ext@));
    }
    let mut r = data_dir.to_owned();
    r.append("/");
    r.append(relative);
    r
}

/// The sidecar path for a generated file that may already live under
/// the data directory: the data-directory prefix is dropped before the
/// extension is replaced.
pub fn data_file(data_dir: &str, html_file: &str) -> (r: String)
    ensures
        r@ == spec_data_file_path(
            data_dir@,
            if html_file@.len() >= data_dir@.len() && html_file@.take(data_dir@.len() as int)
                == data_dir@ {
                html_file@.skip(data_dir@.len() as int)
            } else {
                html_file@
            },
        ),
{
    let rel: &str = if crate::strings::str_starts_with(html_file, data_dir) {
        let dn = data_dir.unicode_len();
        let hn = html_file.unicode_len();
        html_file.substring_char(dn, hn)
    } else {
        html_file
    };
    data_file_path(data_dir, rel)
}

/// Whether a file extension marks a template-rendered page, whose
/// stored key carries a profile suffix.
pub open spec fn spec_suffixed_extension(e: Seq<char>) -> bool {
    e == "html"@ || e == "json"@ || e == "xml"@ || e == "css"@ || e == "js"@ || e == "txt"@
}

/// The key under which a page's variant for `profile` is stored:
/// template-rendered extensions get the `@<profile>` suffix, anything
/// else is stored under its bare path.
pub open spec fn spec_object_key(path: Seq<char>, profile: Seq<char>) -> Seq<char> {
    let has_ext = match find_last(path, '.') {
        Some(i) => match find_last(path, '/') {
            Some(j) => j < i,
            None => true,
        },
        None => false,
    };
    if has_ext && spec_suffixed_extension(path.skip(find_last(path, '.')->Some_0 + 1)) {
        path + "@"@ + profile
    } else {
        path
    }
}

/// Computes the stored key of a page's variant for `profile`.
pub fn object_key(path: &str, profile: &str) -> (r: String)
    ensures
        r@ == spec_object_key(path@, profile@),
{
    let ext: Option<&str> = match str_rfind(path, '.') {
        Some(i) => {
            let after_slash = match str_rfind(path, '/') {
                Some(j) => j < i,
                None => true,
            };
            if after_slash {
                let n = path.unicode_len();
                Some(path.substring_char(i + 1, n))
            } else {
                None
            }
        },
        None => None,
    };
    match ext {
        Some(e) => {
            proof {
                assert(e@ == path@.skip(find_last(path@, '.')->Some_0 + 1));
            }
            if str_eq(e, "html") || str_eq(e, "json") || str_eq(e, "xml") || str_eq(e, "css")
                || str_eq(e, "js") || str_eq(e, "txt") {
                let mut r = path.to_owned();
                r.append("@");
                r.append(profile);
                r
            } else {
                path.to_owned()
            }
        },
        None => path.to_owned(),
    }
}

/// The base key whose sidecar describes a stored object: the
/// `@<profile>` suffix, if any, is dropped.
pub fn metadata_base_key(object_key: &str) -> (r: String)
    ensures
        r@ == match find_last(object_key@, '@') {
            Some(i) => object_key@.take(i),
            None => object_key@,
        },
{
    match str_rfind(object_key, '@') {
        Some(i) => object_key.substring_char(0, i).to_owned(),
        None => object_key.to_owned(),
    }
}

/// Lists the stored object keys of a generated website directory: each
/// file's path relative to the directory, led by `/`.
pub struct LocalObjectReader {
    pub website_dir: String,
}

impl LocalObjectReader {
    /// Maps the files found under the website directory to their
    /// stored-object keys: the directory prefix replaced by `/`.
    pub fn list_objects(&self, files: &Vec<String>) -> (r: Vec<String>)
        ensures
            r@.len() == files@.len(),
            forall|i: int|
                0 <= i < files@.len() ==> (#[trigger] r@[i])@ == "/"@ + (
                if files@[i]@.len() >= self.website_dir@.len() && files@[i]@.take(
                    self.website_dir@.len() as int,
                ) == self.website_dir@ {
                    spec_strip_leading_slash(files@[i]@.skip(self.website_dir@.len() as int))
                } else {
                    spec_strip_leading_slash(files@[i]@)
                }),
    {
        let mut r: Vec<String> = Vec::new();
        let mut i: usize = 0;
        while i < files.len()
            invariant
                i <= files@.len(),
                r@.len() == i,
                forall|k: int|
                    0 <= k < i ==> (#[trigger] r@[k])@ == "/"@ + (
                    if files@[k]@.len() >= self.website_dir@.len() && files@[k]@.take(
                        self.website_dir@.len() as int,
                    ) == self.website_dir@ {
                        spec_strip_leading_slash(files@[k]@.skip(self.website_dir@.len() as int))
                    } else {
                        spec_strip_leading_slash(files@[k]@)
                    }),
            decreases files@.len() - i,
        {
            let file = &files[i];
            let rel: &str = if crate::strings::str_starts_with(
                file.as_str(),
                self.website_dir.as_str(),
            ) {
                file.as_str().substring_char(
                    self.website_dir.as_str().unicode_len(),
                    file.as_str().unicode_len(),
                )
            } else {
                file.as_str()
            };
            let n = rel.unicode_len();
            let trimmed: &str = if n > 0 && rel.get_char(0) == '/' {
                rel.substring_char(1, n)
            } else {
                rel
            };
            let mut key = String::new();
            key.append("/");
            key.append(trimmed);
            r.push(key);
            i = i + 1;
        }
        r
    }
}

} // verus!
