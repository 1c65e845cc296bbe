use orangutan::refresh::{
    handle_refresh_token, redirect_target, refresh_decision, should_force_token_refresh,
    RefreshDecision, RefreshOutcome, RevocationRegistry,
};
use orangutan::tokens::{decode_token, RefreshToken, RootKey};

const NOW: i64 = 1_700_000_000;

fn root() -> RootKey {
    RootKey { pair: biscuit_auth::KeyPair::new() }
}

fn refresh_token(root: &RootKey, profile: &str, duration: i64) -> (String, Vec<Vec<u8>>) {
    let profiles = vec![profile.to_string()];
    let token = RefreshToken::new(duration, &profiles, NOW, root).unwrap();
    let encoded = token.as_base64().unwrap();
    let ids = token.token.revocation_ids.clone();
    (encoded, ids)
}

#[test]
fn test_should_force_token_refresh() {
    assert_eq!(should_force_token_refresh::<String>(None), false);
    assert_eq!(should_force_token_refresh::<String>(Some(Ok(true))), true);
    assert_eq!(should_force_token_refresh::<String>(Some(Ok(false))), false);
    assert_eq!(should_force_token_refresh(Some(Err("yes".to_string()))), true);
    assert_eq!(should_force_token_refresh(Some(Err("no".to_string()))), true);
    assert_eq!(should_force_token_refresh(Some(Err("".to_string()))), true);
}

#[test]
fn server_test_should_force_token_refresh() {
    assert_eq!(should_force_token_refresh::<String>(None), false);
    assert_eq!(should_force_token_refresh::<String>(Some(Ok(true))), true);
    assert_eq!(should_force_token_refresh::<String>(Some(Ok(false))), false);
    assert_eq!(should_force_token_refresh(Some(Err("yes".to_string()))), true);
    assert_eq!(should_force_token_refresh(Some(Err("no".to_string()))), true);
    assert_eq!(should_force_token_refresh(Some(Err("".to_string()))), true);
}

#[test]
fn revoked_tokens_read_hex_with_raw_fallback() {
    let lines = vec!["48656c6c6f".to_string(), "".to_string(), "zzz".to_string()];
    let registry = RevocationRegistry::read_revoked_tokens(&lines);
    assert!(registry.is_revoked(&b"Hello".to_vec()));
    assert!(registry.is_revoked(&b"zzz".to_vec()));
    assert!(!registry.is_revoked(&b"".to_vec()));
    assert!(!registry.is_revoked(&b"other".to_vec()));
}

#[test]
fn revocation_takes_precedence() {
    let root = root();
    let (encoded, ids) = refresh_token(&root, "friends", 3600);
    let decoded = decode_token(&encoded, &root.public()).unwrap();

    let hex_lines: Vec<String> = ids.iter().map(hex_of).collect();
    let registry = RevocationRegistry::read_revoked_tokens(&hex_lines);

    // Valid, unexpired, no admin session, still rejected as forbidden.
    let decision =
        refresh_decision(&decoded.facts, &decoded.revocation_ids, &registry, NOW, None, false);
    assert_eq!(decision, RefreshDecision::Forbidden);

    // Forbidden regardless of the force flag or an admin session.
    let admin = vec!["*".to_string()];
    let decision =
        refresh_decision(&decoded.facts, &decoded.revocation_ids, &registry, NOW, Some(&admin), true);
    assert_eq!(decision, RefreshDecision::Forbidden);
}

fn hex_of(bytes: &Vec<u8>) -> String {
    let mut s = String::new();
    for b in bytes {
        s.push_str(&format!("{:02x}", b));
    }
    s
}

#[test]
fn refresh_decisions_follow_precedence() {
    let root = root();
    let (encoded, _) = refresh_token(&root, "friends", 3600);
    let decoded = decode_token(&encoded, &root.public()).unwrap();
    let empty = RevocationRegistry::new();

    // Expired: unauthorized.
    let decision = refresh_decision(
        &decoded.facts,
        &decoded.revocation_ids,
        &empty,
        NOW + 4000,
        None,
        false,
    );
    assert_eq!(decision, RefreshDecision::Unauthorized);

    // Super-admin session without force: no-op.
    let admin = vec!["*".to_string()];
    let decision =
        refresh_decision(&decoded.facts, &decoded.revocation_ids, &empty, NOW, Some(&admin), false);
    assert_eq!(decision, RefreshDecision::SkipNoOp);

    // Super-admin session with force: mint.
    let decision =
        refresh_decision(&decoded.facts, &decoded.revocation_ids, &empty, NOW, Some(&admin), true);
    assert_eq!(decision, RefreshDecision::Mint);

    // Ordinary session: mint.
    let decision =
        refresh_decision(&decoded.facts, &decoded.revocation_ids, &empty, NOW, None, false);
    assert_eq!(decision, RefreshDecision::Mint);
}

#[test]
fn refresh_flow_mints_session_and_redirects() {
    let root = root();
    let (encoded, _) = refresh_token(&root, "friends", 3600);
    let registry = RevocationRegistry::new();
    let query = vec![
        ("refresh_token".to_string(), encoded.clone()),
        ("page".to_string(), "2".to_string()),
    ];

    let outcome = handle_refresh_token(
        Some(&encoded),
        false,
        "/whatever",
        &query,
        None,
        &registry,
        NOW,
        &root,
    );
    match outcome {
        RefreshOutcome::Redirect(Some(cookie), location) => {
            assert_eq!(location, "/whatever?page=2");
            // The cookie holds a session token granting the same
            // profile, without the refresh expiry block.
            let session = decode_token(&cookie, &root.public()).unwrap();
            assert_eq!(session.facts.profiles, vec!["friends".to_string()]);
            assert!(session.facts.expiries.is_empty());
        },
        other => panic!("expected a redirect with a cookie, got {:?}", other),
    }
}

#[test]
fn refresh_flow_passthrough_and_rejections() {
    let root = root();
    let registry = RevocationRegistry::new();
    let query: Vec<(String, String)> = Vec::new();

    let outcome =
        handle_refresh_token(None, false, "/", &query, None, &registry, NOW, &root);
    assert!(matches!(outcome, RefreshOutcome::Passthrough));

    let bogus = "bogus".to_string();
    let outcome =
        handle_refresh_token(Some(&bogus), false, "/", &query, None, &registry, NOW, &root);
    assert!(matches!(outcome, RefreshOutcome::Unauthorized));
}

#[test]
fn refresh_flow_never_downgrades_an_admin_session() {
    let root = root();
    let (encoded, _) = refresh_token(&root, "friends", 3600);
    let registry = RevocationRegistry::new();
    let query = vec![("refresh_token".to_string(), encoded.clone())];

    let admin_text = {
        let mut builder = biscuit_auth::Biscuit::builder();
        builder.add_code("profile(\"*\");").unwrap();
        builder.build(&root.pair).unwrap().to_base64().unwrap()
    };
    let admin = decode_token(&admin_text, &root.public()).unwrap();

    // Without force, the redirect carries no new cookie.
    let outcome = handle_refresh_token(
        Some(&encoded),
        false,
        "/",
        &query,
        Some(&admin),
        &registry,
        NOW,
        &root,
    );
    match outcome {
        RefreshOutcome::Redirect(cookie, location) => {
            assert!(cookie.is_none());
            assert_eq!(location, "/");
        },
        other => panic!("expected a cookie-less redirect, got {:?}", other),
    }

    // With force, a new session is minted.
    let outcome = handle_refresh_token(
        Some(&encoded),
        true,
        "/",
        &query,
        Some(&admin),
        &registry,
        NOW,
        &root,
    );
    match outcome {
        RefreshOutcome::Redirect(cookie, _) => assert!(cookie.is_some()),
        other => panic!("expected a minting redirect, got {:?}", other),
    }
}

#[test]
fn refresh_flow_rejects_undecodable_url_encoding() {
    let root = root();
    let registry = RevocationRegistry::new();
    let query: Vec<(String, String)> = Vec::new();
    // An escape that decodes to invalid UTF-8 never reaches the token
    // decoder: the credential is rejected as unauthorized.
    let bad = "%FF".to_string();
    let outcome =
        handle_refresh_token(Some(&bad), false, "/", &query, None, &registry, NOW, &root);
    assert!(matches!(outcome, RefreshOutcome::Unauthorized));
}

#[test]
fn redirect_strips_refresh_parameters() {
    let query = vec![
        ("refresh_token".to_string(), "abc".to_string()),
        ("force".to_string(), "true".to_string()),
        ("a".to_string(), "1".to_string()),
        ("b".to_string(), "2".to_string()),
    ];
    assert_eq!(redirect_target("/page", &query), "/page?a=1&b=2");

    let only_refresh = vec![("refresh_token".to_string(), "abc".to_string())];
    assert_eq!(redirect_target("/page", &only_refresh), "/page");
}
