use orangutan::admin::{generate_token_profiles, is_admin, log_access, log_error, AccessLog,
    ErrorLog};

fn strings(raw: &[&str]) -> Vec<String> {
    raw.iter().map(|p| p.to_string()).collect()
}

#[test]
fn admin_gate_requires_wildcard() {
    assert!(is_admin(&strings(&["friends", "*"])));
    assert!(!is_admin(&strings(&["friends"])));
    assert!(!is_admin(&strings(&[])));
}

#[test]
fn token_form_profiles_reject_wildcard() {
    let name = "alice".to_string();
    let profiles = generate_token_profiles(&name, "friends,family").unwrap();
    assert_eq!(profiles, strings(&["alice", "friends", "family"]));

    // Exactly the comma split, empty pieces included.
    let ragged = generate_token_profiles(&name, "friends,,family").unwrap();
    assert_eq!(ragged, strings(&["alice", "friends", "", "family"]));

    assert!(generate_token_profiles(&name, "friends,*").is_err());
    let star = "*".to_string();
    assert!(generate_token_profiles(&star, "friends").is_err());
}

#[test]
fn logs_only_grow() {
    let mut errors: Vec<ErrorLog> = Vec::new();
    log_error(&mut errors, 10, "first".to_string());
    log_error(&mut errors, 11, "second".to_string());
    assert_eq!(errors.len(), 2);
    assert_eq!(errors[0].line, "first");

    let mut accesses: Vec<AccessLog> = Vec::new();
    log_access(&mut accesses, 12, strings(&["friends"]), "/page".to_string());
    assert_eq!(accesses.len(), 1);
    assert_eq!(accesses[0].path, "/page");
}
