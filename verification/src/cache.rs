//! Per-profile-set generation caching, and the crash-safe
//! content-update transaction.
//!
//! A generation exists for a canonical website identity exactly when
//! its entry is in the cache; ensuring a site is idempotent. When
//! upstream content changes, the current output is renamed to a trash
//! location and every in-memory cache is snapshotted and cleared; a
//! successful regeneration deletes the trash, a failed one renames the
//! trash back and restores every cache verbatim, leaving the system
//! exactly as it was before the update attempt.

use vstd::prelude::*;

use crate::refresh::pair_views;
use crate::strings::{contains_str, contains_view, views_of_strings};
use crate::website_id::{spec_name, website_dir, WebsiteId};

verus! {

/// The process-wide generation caches: which website directories have
/// been generated since the last invalidation, whether the build
/// configuration and the data files exist, and the cached set of
/// profiles the content uses.
pub struct GenerationCache {
    pub generated: Vec<String>,
    pub hugo_config_generated: bool,
    pub data_files_generated: bool,
    pub used_profiles: Option<Vec<String>>,
}

/// The caches in specification form.
pub ghost struct CacheModel {
    pub generated: Seq<Seq<char>>,
    pub hugo_config_generated: bool,
    pub data_files_generated: bool,
    pub used_profiles: Option<Seq<Seq<char>>>,
}

impl GenerationCache {
    pub open spec fn model(&self) -> CacheModel {
        CacheModel {
            generated: views_of_strings(self.generated@),
            hugo_config_generated: self.hugo_config_generated,
            data_files_generated: self.data_files_generated,
            used_profiles: match self.used_profiles {
                Some(p) => Some(views_of_strings(p@)),
                None => None,
            },
        }
    }

    /// The caches of a freshly started (or freshly invalidated)
    /// process: nothing generated yet.
    pub fn new() -> (r: Self)
        ensures
            r.model() == spec_cleared_caches(),
    {
        let r = GenerationCache {
            generated: Vec::new(),
            hugo_config_generated: false,
            data_files_generated: false,
            used_profiles: None,
        };
        proof {
            assert(views_of_strings(r.generated@) =~= Seq::<Seq<char>>::empty());
        }
        r
    }

    /// Whether generation has completed for `dir` since the last
    /// invalidation.
    pub fn is_generated(&self, dir: &str) -> (r: bool)
        ensures
            r == contains_view(self.generated@, dir@),
    {
        contains_str(&self.generated, dir)
    }

    /// Records that generation completed for `dir`.
    pub fn record_generated(&mut self, dir: String)
        ensures
            final (self).generated@ == old(self).generated@.push(dir),
            final (self).hugo_config_generated == old(self).hugo_config_generated,
            final (self).data_files_generated == old(self).data_files_generated,
            final (self).used_profiles == old(self).used_profiles,
    {
        self.generated.push(dir);
    }

    /// The ensure step for one website identity: the directory that
    /// serves it, and whether the external generator must still be run
    /// for it (an identity already in the cache is returned
    /// immediately, idempotently).
    pub fn generate_website_if_needed(&self, id: &WebsiteId, dest_dir: &str) -> (r: (String, bool))
        ensures
            r.0@ == dest_dir@ + "/"@ + "website@"@ + spec_name(id.profiles@),
            r.1 == !contains_view(self.generated@, r.0@),
    {
        let dir = website_dir(dest_dir, id);
        let needs = !self.is_generated(dir.as_str());
        (dir, needs)
    }

    /// Whether the per-page data files must still be generated.
    pub fn generate_data_files_if_needed(&self) -> (r: bool)
        ensures
            r == !self.data_files_generated,
    {
        !self.data_files_generated
    }

    /// Whether the build configuration must still be copied in place.
    pub fn copy_hugo_config_if_needed(&self) -> (r: bool)
        ensures
            r == !self.hugo_config_generated,
    {
        !self.hugo_config_generated
    }

    /// The ensure plan for the default website: its directory, whether
    /// the site must be generated, and whether the data files must be.
    pub fn generate_default_website(&self, dest_dir: &str) -> (r: (String, bool, bool))
        ensures
            r.0@ == dest_dir@ + "/"@ + "website@"@ + "_default"@,
            r.1 == !contains_view(self.generated@, r.0@),
            r.2 == !self.data_files_generated,
    {
        let id = WebsiteId::default();
        let (dir, needs_site) = self.generate_website_if_needed(&id, dest_dir);
        let needs_data = self.generate_data_files_if_needed();
        (dir, needs_site, needs_data)
    }
}

/// The content-repository location, resolved once at startup from the
/// value the environment handed the process.
pub struct WebsiteRoot(pub String);

impl WebsiteRoot {
    /// Accepts the environment's value for the website root; an absent
    /// or empty value is a configuration error, fatal at startup.
    pub fn try_from_env(value: Option<String>) -> (r: Result<WebsiteRoot, String>)
        ensures
            match value {
                Some(v) => if v@.len() == 0 {
                    r is Err
                } else {
                    r is Ok && r->Ok_0.0@ == v@
                },
                None => r is Err,
            },
    {
        match value {
            Some(v) => {
                if v.as_str().unicode_len() == 0 {
                    Err("Environment variable `WEBSITE_ROOT` not found.".to_owned())
                } else {
                    Ok(WebsiteRoot(v))
                }
            },
            None => Err("Environment variable `WEBSITE_ROOT` not found.".to_owned()),
        }
    }
}

/// The snapshot of every cache, taken when a content update begins, so
/// that a failed update can restore them verbatim.
pub struct State {
    pub cache: GenerationCache,
}

/// The update-relevant state of the whole system: the in-memory caches,
/// the output tree (modeled as named objects), and the trash location.
pub struct SiteState {
    pub cache: GenerationCache,
    pub output: Vec<(String, String)>,
    pub trash: Option<Vec<(String, String)>>,
}

/// The system in specification form.
pub ghost struct SiteModel {
    pub cache: CacheModel,
    pub output: Seq<(Seq<char>, Seq<char>)>,
    pub trash: Option<Seq<(Seq<char>, Seq<char>)>>,
}

impl SiteState {
    pub open spec fn model(&self) -> SiteModel {
        SiteModel {
            cache: self.cache.model(),
            output: pair_views(self.output@),
            trash: match self.trash {
                Some(t) => Some(pair_views(t@)),
                None => None,
            },
        }
    }
}

/// Freshly cleared caches.
pub open spec fn spec_cleared_caches() -> CacheModel {
    CacheModel {
        generated: Seq::empty(),
        hugo_config_generated: false,
        data_files_generated: false,
        used_profiles: None,
    }
}

/// What trashing the outdated websites does: the output moves whole to
/// the trash and every cache is cleared.
pub open spec fn spec_trash(m: SiteModel) -> SiteModel {
    SiteModel { cache: spec_cleared_caches(), output: Seq::empty(), trash: Some(m.output) }
}

/// What recovering the trash does: the trashed output moves back in
/// place and the snapshotted caches are restored.
pub open spec fn spec_recover(m: SiteModel, snapshot: CacheModel) -> SiteModel {
    SiteModel { cache: snapshot, output: m.trash->Some_0, trash: None }
}

/// What emptying the trash does: the trash is deleted, nothing else
/// changes.
pub open spec fn spec_empty_trash(m: SiteModel) -> SiteModel {
    SiteModel { cache: m.cache, output: m.output, trash: None }
}

/// Transaction atomicity. A content update first trashes the current
/// output and clears the caches. If regeneration then fails, recovering
/// the trash restores the pre-update system exactly — caches and output
/// structurally identical. If it succeeds, emptying the trash leaves no
/// trace of the prior output accessible.
pub proof fn lemma_content_update_atomic(m: SiteModel, regenerated: SiteModel)
    requires
        m.trash is None,
    ensures
        spec_recover(spec_trash(m), m.cache) == m,
        spec_empty_trash(regenerated).trash is None,
        spec_empty_trash(regenerated).output == regenerated.output,
        spec_empty_trash(regenerated).cache == regenerated.cache,
{
}

/// Begins a content-update transaction: empties any pre-existing
/// trash, renames the current output to the trash location, snapshots
/// every cache, then clears them all.
pub fn trash_outdated_websites(sys: &mut SiteState) -> (r: State)
    ensures
        final (sys).model() == spec_trash(old(sys).model()),
        r.cache.model() == old(sys).cache.model(),
{
    let mut cleared = GenerationCache::new();
    core::mem::swap(&mut cleared, &mut sys.cache);
    let mut output: Vec<(String, String)> = Vec::new();
    core::mem::swap(&mut output, &mut sys.output);
    sys.trash = Some(output);
    proof {
        assert(pair_views(final (sys).output@) =~= Seq::<(Seq<char>, Seq<char>)>::empty());
    }
    State { cache: cleared }
}

/// Rolls a failed content update back: the trashed output returns in
/// place and every snapshotted cache is restored verbatim. The system
/// is left exactly as it was before the update attempt.
pub fn recover_trash(sys: &mut SiteState, state: State)
    requires
        old(sys).trash is Some,
    ensures
        final (sys).model() == spec_recover(old(sys).model(), state.cache.model()),
{
    let mut trash: Option<Vec<(String, String)>> = None;
    core::mem::swap(&mut trash, &mut sys.trash);
    match trash {
        Some(objects) => {
            sys.output = objects;
        },
        None => {},
    }
    sys.cache = state.cache;
}

/// Completes a successful content update: the trash is deleted. The
/// snapshot is consumed so that no outdated cache state survives.
pub fn empty_trash(sys: &mut SiteState, state: State)
    ensures
        final (sys).model() == spec_empty_trash(old(sys).model()),
{
    let State { cache: _ } = state;
    sys.trash = None;
}

} // verus!
