use orangutan::authz::{authorize, is_authorized, TokenFacts};
use orangutan::tokens::{
    decode_token, encode_token_url_safe, merge_tokens, CapabilityToken, RefreshToken, RootKey,
};

const NOW: i64 = 1_700_000_000;

fn root() -> RootKey {
    RootKey { pair: biscuit_auth::KeyPair::new() }
}

fn mint(root: &RootKey, code: &str) -> CapabilityToken {
    let mut builder = biscuit_auth::Biscuit::builder();
    builder.add_code(code).unwrap();
    let biscuit = builder.build(&root.pair).unwrap();
    let encoded = biscuit.to_base64().unwrap();
    decode_token(&encoded, &root.public()).unwrap()
}

#[test]
fn decode_reads_profile_facts() {
    let root = root();
    let token = mint(&root, "profile(\"friends\");");
    assert_eq!(token.facts.profiles, vec!["friends".to_string()]);
    assert!(token.facts.expiries.is_empty());
    assert!(!token.facts.opaque_checks);
}

#[test]
fn decode_rejects_wrong_key() {
    let signer = root();
    let other = root();
    let mut builder = biscuit_auth::Biscuit::builder();
    builder.add_code("profile(\"friends\");").unwrap();
    let biscuit = builder.build(&signer.pair).unwrap();
    let encoded = biscuit.to_base64().unwrap();
    assert!(decode_token(&encoded, &other.public()).is_err());
}

#[test]
fn decode_rejects_garbage() {
    let root = root();
    assert!(decode_token("not a token", &root.public()).is_err());
}

#[test]
fn authorization_respects_granted_profiles() {
    let root = root();
    let token = mint(&root, "profile(\"friends\");");
    assert!(authorize(Some(&token.facts), "friends", NOW));
    assert!(!authorize(Some(&token.facts), "family", NOW));
    assert!(authorize(Some(&token.facts), "_default", NOW));
    assert!(authorize(None, "_default", NOW));
    assert!(!authorize(None, "friends", NOW));
}

#[test]
fn wildcard_profile_grants_everything() {
    let root = root();
    let token = mint(&root, "profile(\"*\");");
    assert!(authorize(Some(&token.facts), "friends", NOW));
    assert!(authorize(Some(&token.facts), "family", NOW));
}

#[test]
fn merge_authorizes_union_of_profiles() {
    let root = root();
    let a = mint(&root, "profile(\"friends\");");
    let b = mint(&root, "profile(\"family\");");
    let merged = merge_tokens(&a, &b, &root).unwrap();
    assert!(authorize(Some(&merged.facts), "friends", NOW));
    assert!(authorize(Some(&merged.facts), "family", NOW));
    assert!(!authorize(Some(&merged.facts), "colleagues", NOW));
    assert_eq!(merged.facts.profiles, vec!["friends".to_string(), "family".to_string()]);
}

#[test]
fn refresh_token_carries_expiry() {
    let root = root();
    let profiles = vec!["friends".to_string()];
    let refresh = RefreshToken::new(3600, &profiles, NOW, &root).unwrap();
    let encoded = refresh.as_base64().unwrap();
    assert!(!encoded.contains('='));

    let decoded = decode_token(&encoded, &root.public()).unwrap();
    assert_eq!(decoded.facts.profiles, vec!["friends".to_string()]);
    assert_eq!(decoded.facts.expiries, vec![NOW + 3600]);
    assert!(!decoded.facts.opaque_checks);

    // Within the bound every check passes; past it the token rejects.
    assert!(authorize(Some(&decoded.facts), "friends", NOW + 3599));
    assert!(!authorize(Some(&decoded.facts), "friends", NOW + 3601));
}

#[test]
fn encode_url_safe_round_trips() {
    let root = root();
    let token = mint(&root, "profile(\"friends\");");
    let stripped = encode_token_url_safe(&token).unwrap();
    assert!(!stripped.contains('='));
    let again = decode_token(&stripped, &root.public()).unwrap();
    assert_eq!(again.facts.profiles, vec!["friends".to_string()]);
}

#[test]
fn opaque_checks_deny_everything() {
    let facts = TokenFacts {
        profiles: vec!["friends".to_string()],
        expiries: vec![],
        opaque_checks: true,
    };
    assert!(!authorize(Some(&facts), "friends", NOW));
    assert!(authorize(Some(&facts), "_default", NOW));
}

#[test]
fn foreign_check_shapes_are_conservative() {
    let root = root();
    let mut builder = biscuit_auth::Biscuit::builder();
    builder.add_code("profile(\"friends\");\ncheck if resource(\"x\");").unwrap();
    let biscuit = builder.build(&root.pair).unwrap();
    let encoded = biscuit.to_base64().unwrap();
    let token = decode_token(&encoded, &root.public()).unwrap();
    assert!(token.facts.opaque_checks);
    assert!(!authorize(Some(&token.facts), "friends", NOW));
}

#[test]
fn foreign_facts_are_conservative_too() {
    let root = root();
    let mut builder = biscuit_auth::Biscuit::builder();
    builder.add_code("profile(\"friends\");\nresource(\"x\");").unwrap();
    let biscuit = builder.build(&root.pair).unwrap();
    let encoded = biscuit.to_base64().unwrap();
    let token = decode_token(&encoded, &root.public()).unwrap();
    assert!(token.facts.opaque_checks);
    assert!(!authorize(Some(&token.facts), "friends", NOW));
}

#[test]
fn is_authorized_checks_allowed_list() {
    let root = root();
    let token = mint(&root, "profile(\"family\");");
    let allowed = vec!["friends".to_string(), "family".to_string()];
    assert!(is_authorized(Some(&token.facts), &allowed, NOW));
    let closed = vec!["friends".to_string()];
    assert!(!is_authorized(Some(&token.facts), &closed, NOW));
    let public = vec!["_default".to_string()];
    assert!(is_authorized(None, &public, NOW));
}
