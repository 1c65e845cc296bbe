use orangutan::content::{allowed_profiles, resolve_content, ContentDecision};
use orangutan::pages::{PageMetadata, ReadAllowed};
use orangutan::resolver::{bearer_token_of_header, resolve_token, TokenSource};
use orangutan::tokens::{decode_token, RootKey};

const NOW: i64 = 1_700_000_000;

fn strings(raw: &[&str]) -> Vec<String> {
    raw.iter().map(|p| p.to_string()).collect()
}

fn root() -> RootKey {
    RootKey { pair: biscuit_auth::KeyPair::new() }
}

fn mint_text(root: &RootKey, code: &str) -> String {
    let mut builder = biscuit_auth::Biscuit::builder();
    builder.add_code(code).unwrap();
    builder.build(&root.pair).unwrap().to_base64().unwrap()
}

fn gated(key: &str, allowed: &[&str]) -> (String, PageMetadata) {
    (key.to_string(), PageMetadata {
        read_allowed: ReadAllowed(strings(allowed)),
        path: key.to_string(),
    })
}

#[test]
fn content_picks_the_first_authorized_variant() {
    let root = root();
    let encoded = mint_text(&root, "profile(\"family\");");
    let token = decode_token(&encoded, &root.public()).unwrap();

    let stored = strings(&["/whatever/index.html@friends", "/whatever/index.html@family"]);
    let sidecars = vec![gated("/whatever/index.html", &["friends", "family"])];

    match resolve_content("/whatever/", &stored, &sidecars, Some(&token.facts), NOW) {
        ContentDecision::ServeVariant(key) => assert_eq!(key, "/whatever/index.html@family"),
        other => panic!("expected a variant, got {:?}", decision_name(&other)),
    }
}

#[test]
fn content_denies_without_matching_profile() {
    let stored = strings(&["/secret/index.html@friends"]);
    let sidecars = vec![gated("/secret/index.html", &["friends"])];
    match resolve_content("/secret/", &stored, &sidecars, None, NOW) {
        ContentDecision::Denied => {},
        other => panic!("expected denial, got {:?}", decision_name(&other)),
    }
}

#[test]
fn content_serves_public_pages_without_token() {
    let stored = strings(&["/index.html@_default"]);
    let sidecars = vec![gated("/index.html", &["_default"])];
    match resolve_content("/", &stored, &sidecars, None, NOW) {
        ContentDecision::ServeVariant(key) => assert_eq!(key, "/index.html@_default"),
        other => panic!("expected the public variant, got {:?}", decision_name(&other)),
    }
}

#[test]
fn content_serves_static_files_unconditionally() {
    let stored = strings(&["/logo.png"]);
    let sidecars: Vec<(String, PageMetadata)> = Vec::new();
    match resolve_content("/logo.png", &stored, &sidecars, None, NOW) {
        ContentDecision::ServeStatic(key) => assert_eq!(key, "/logo.png"),
        other => panic!("expected a static file, got {:?}", decision_name(&other)),
    }
}

#[test]
fn content_not_found_without_match() {
    let stored = strings(&["/index.html@_default"]);
    let sidecars: Vec<(String, PageMetadata)> = Vec::new();
    match resolve_content("/missing", &stored, &sidecars, None, NOW) {
        ContentDecision::NotFound => {},
        other => panic!("expected not found, got {:?}", decision_name(&other)),
    }
}

fn decision_name(d: &ContentDecision) -> &'static str {
    match d {
        ContentDecision::NotFound => "NotFound",
        ContentDecision::ServeStatic(_) => "ServeStatic",
        ContentDecision::ServeVariant(_) => "ServeVariant",
        ContentDecision::Denied => "Denied",
    }
}

#[test]
fn allowed_profiles_strip_the_variant_suffix() {
    let sidecars = vec![gated("/whatever/index.html", &["friends", "family"])];
    assert_eq!(
        allowed_profiles(&sidecars, "/whatever/index.html@friends"),
        Some(strings(&["friends", "family"]))
    );
    assert_eq!(allowed_profiles(&sidecars, "/logo.png"), None);
}

#[test]
fn bearer_headers_are_recognized() {
    assert_eq!(bearer_token_of_header("Bearer abc"), Some("abc".to_string()));
    assert_eq!(bearer_token_of_header("Basic abc"), None);
    assert_eq!(bearer_token_of_header(""), None);
}

#[test]
fn resolution_merges_sources_and_flags_cookie() {
    let root = root();
    let cookie_text = mint_text(&root, "profile(\"friends\");");
    let bearer_text = mint_text(&root, "profile(\"family\");");

    // A cookie alone does not re-issue the cookie.
    let candidates = vec![(TokenSource::Cookie, cookie_text.clone())];
    let resolved = resolve_token(&candidates, &root);
    assert!(!resolved.should_refresh_cookie);
    assert_eq!(resolved.token.unwrap().facts.profiles, strings(&["friends"]));

    // A bearer grant must be persisted, and merges with the cookie.
    let candidates = vec![
        (TokenSource::Cookie, cookie_text.clone()),
        (TokenSource::Bearer, bearer_text.clone()),
    ];
    let resolved = resolve_token(&candidates, &root);
    assert!(resolved.should_refresh_cookie);
    assert_eq!(resolved.token.unwrap().facts.profiles, strings(&["friends", "family"]));

    // A source that fails to decode is skipped, never fatal.
    let candidates = vec![
        (TokenSource::Cookie, "garbage".to_string()),
        (TokenSource::QueryParam, bearer_text.clone()),
    ];
    let resolved = resolve_token(&candidates, &root);
    assert!(resolved.should_refresh_cookie);
    assert_eq!(resolved.token.unwrap().facts.profiles, strings(&["family"]));

    // No valid source resolves to no token.
    let candidates = vec![(TokenSource::Cookie, "garbage".to_string())];
    let resolved = resolve_token(&candidates, &root);
    assert!(resolved.token.is_none());
}
