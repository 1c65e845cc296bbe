use orangutan::cache::{
    empty_trash, recover_trash, trash_outdated_websites, GenerationCache, SiteState,
};
use orangutan::website_id::{website_dir, WebsiteId};

fn strings(raw: &[&str]) -> Vec<String> {
    raw.iter().map(|p| p.to_string()).collect()
}

#[test]
fn website_id_is_canonical() {
    let used = strings(&["a", "b", "c"]);
    let left = WebsiteId::from(&strings(&["b", "a", "b"]), &used);
    let right = WebsiteId::from(&strings(&["a", "b"]), &used);
    assert_eq!(left.name(), "a,b");
    assert_eq!(right.name(), "a,b");
    assert_eq!(left.dir_name(), right.dir_name());

    // The same identity selects the same cache entry.
    let mut cache = GenerationCache::new();
    let (dir_left, needs_left) = cache.generate_website_if_needed(&left, "/dest");
    assert!(needs_left);
    cache.record_generated(dir_left.clone());
    let (dir_right, needs_right) = cache.generate_website_if_needed(&right, "/dest");
    assert_eq!(dir_left, dir_right);
    assert!(!needs_right);
}

#[test]
fn website_id_drops_unused_profiles_but_keeps_wildcard() {
    let used = strings(&["friends"]);
    let id = WebsiteId::from(&strings(&["friends", "stranger", "*"]), &used);
    assert_eq!(id.name(), "*,friends");
}

#[test]
fn website_id_empty_grant_is_default() {
    let used = strings(&["friends"]);
    let id = WebsiteId::from(&strings(&[]), &used);
    assert_eq!(id.name(), "_default");
    assert_eq!(id.dir_name(), "website@_default");
    assert_eq!(website_dir("/dest", &id), "/dest/website@_default");
}

#[test]
fn website_id_no_kept_profiles_still_has_default_name() {
    let used = strings(&["friends"]);
    let id = WebsiteId::from(&strings(&["stranger"]), &used);
    assert_eq!(id.name(), "_default");
}

#[test]
fn generation_cache_is_idempotent() {
    let mut cache = GenerationCache::new();
    let id = WebsiteId::default();
    let (dir, needs) = cache.generate_website_if_needed(&id, "/dest");
    assert_eq!(dir, "/dest/website@_default");
    assert!(needs);
    cache.record_generated(dir.clone());
    let (again, needs_again) = cache.generate_website_if_needed(&id, "/dest");
    assert_eq!(again, dir);
    assert!(!needs_again);
    assert!(cache.generate_data_files_if_needed());
}

fn sample_site() -> SiteState {
    let mut cache = GenerationCache::new();
    cache.record_generated("/dest/website@_default".to_string());
    cache.data_files_generated = true;
    cache.hugo_config_generated = true;
    cache.used_profiles = Some(vec!["friends".to_string()]);
    SiteState {
        cache,
        output: vec![("/index.html@_default".to_string(), "home".to_string())],
        trash: None,
    }
}

#[test]
fn failed_update_restores_everything() {
    let mut sys = sample_site();
    let snapshot = trash_outdated_websites(&mut sys);

    // Mid-transaction the caches are cleared and the output is trashed.
    assert!(sys.output.is_empty());
    assert!(!sys.cache.is_generated("/dest/website@_default"));
    assert!(sys.trash.is_some());

    // The regeneration failed: everything returns, structurally identical.
    recover_trash(&mut sys, snapshot);
    let reference = sample_site();
    assert_eq!(sys.output, reference.output);
    assert!(sys.trash.is_none());
    assert!(sys.cache.is_generated("/dest/website@_default"));
    assert_eq!(sys.cache.data_files_generated, reference.cache.data_files_generated);
    assert_eq!(sys.cache.hugo_config_generated, reference.cache.hugo_config_generated);
    assert_eq!(sys.cache.used_profiles, reference.cache.used_profiles);
}

#[test]
fn successful_update_leaves_no_trace() {
    let mut sys = sample_site();
    let snapshot = trash_outdated_websites(&mut sys);

    // The regeneration succeeded and filled the output anew.
    sys.output.push(("/index.html@_default".to_string(), "fresh".to_string()));
    sys.cache.record_generated("/dest/website@_default".to_string());

    empty_trash(&mut sys, snapshot);
    assert!(sys.trash.is_none());
    assert_eq!(sys.output.len(), 1);
    assert_eq!(sys.output[0].1, "fresh");
}
