use orangutan::codec::{add_padding, remove_padding};

#[test]
fn test_base64_padding() {
    assert_eq!(add_padding("a"), "a===".to_string());
    assert_eq!(add_padding("ab"), "ab==".to_string());
    assert_eq!(add_padding("abc"), "abc=".to_string());
    assert_eq!(add_padding("abcd"), "abcd".to_string());

    assert_eq!(add_padding("a==="), "a===".to_string());
    assert_eq!(add_padding("ab=="), "ab==".to_string());
    assert_eq!(add_padding("abc="), "abc=".to_string());
    assert_eq!(add_padding("abcd"), "abcd".to_string());
}

#[test]
fn server_test_base64_padding() {
    assert_eq!(add_padding("a"), "a===".to_string());
    assert_eq!(add_padding("ab"), "ab==".to_string());
    assert_eq!(add_padding("abc"), "abc=".to_string());
    assert_eq!(add_padding("abcd"), "abcd".to_string());

    assert_eq!(add_padding("a==="), "a===".to_string());
    assert_eq!(add_padding("ab=="), "ab==".to_string());
    assert_eq!(add_padding("abc="), "abc=".to_string());
    assert_eq!(add_padding("abcd"), "abcd".to_string());
}

#[test]
fn auth_routes_test_base64_padding() {
    assert_eq!(add_padding("a"), "a===".to_string());
    assert_eq!(add_padding("ab"), "ab==".to_string());
    assert_eq!(add_padding("abc"), "abc=".to_string());
    assert_eq!(add_padding("abcd"), "abcd".to_string());

    assert_eq!(add_padding("a==="), "a===".to_string());
    assert_eq!(add_padding("ab=="), "ab==".to_string());
    assert_eq!(add_padding("abc="), "abc=".to_string());
    assert_eq!(add_padding("abcd"), "abcd".to_string());
}

#[test]
fn mod_test_base64_padding() {
    assert_eq!(add_padding("a"), "a===".to_string());
    assert_eq!(add_padding("ab"), "ab==".to_string());
    assert_eq!(add_padding("abc"), "abc=".to_string());
    assert_eq!(add_padding("abcd"), "abcd".to_string());

    assert_eq!(add_padding("a==="), "a===".to_string());
    assert_eq!(add_padding("ab=="), "ab==".to_string());
    assert_eq!(add_padding("abc="), "abc=".to_string());
    assert_eq!(add_padding("abcd"), "abcd".to_string());
}

#[test]
fn padding_is_idempotent_and_aligned() {
    for s in ["", "a", "ab", "abc", "abcd", "abcde", "ab==", "a==="] {
        let once = add_padding(s);
        assert_eq!(add_padding(&once), once);
        assert_eq!(once.len() % 4, 0);
    }
}

#[test]
fn remove_padding_strips_from_first_equals() {
    assert_eq!(remove_padding("a==="), "a".to_string());
    assert_eq!(remove_padding("ab=="), "ab".to_string());
    assert_eq!(remove_padding("abc="), "abc".to_string());
    assert_eq!(remove_padding("abcd"), "abcd".to_string());
    assert_eq!(remove_padding(""), "".to_string());
}
