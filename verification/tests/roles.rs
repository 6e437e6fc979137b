use nifty_cli::roles::{parse_role, parse_roles, role_from_lowercase, same_text, Role};

#[test]
fn each_role_name_parses() {
    assert!(parse_role("burn") == Some(Role::Burn));
    assert!(parse_role("lock") == Some(Role::Lock));
    assert!(parse_role("transfer") == Some(Role::Transfer));
}

#[test]
fn role_names_ignore_case() {
    assert!(parse_role("BURN") == Some(Role::Burn));
    assert!(parse_role("Lock") == Some(Role::Lock));
    assert!(parse_role("TrAnSfEr") == Some(Role::Transfer));
}

#[test]
fn lowercasing_follows_unicode() {
    // The Kelvin sign lowercases to the letter k.
    assert!(parse_role("LOC\u{212A}") == Some(Role::Lock));
    assert!(role_from_lowercase("LOCK").is_none());
}

#[test]
fn other_names_are_no_role() {
    assert!(parse_role("none").is_none());
    assert!(parse_role("").is_none());
    assert!(parse_role(" burn").is_none());
    assert!(parse_role("burns").is_none());
}

#[test]
fn all_roles_parse_in_order() {
    let names: Vec<String> = vec!["lock".into(), "BURN".into(), "lock".into()];
    let roles = parse_roles(&names).unwrap();
    assert!(roles == vec![Role::Lock, Role::Burn, Role::Lock]);
}

#[test]
fn the_first_unknown_name_is_reported() {
    let names: Vec<String> = vec!["lock".into(), "sell".into(), "buy".into()];
    assert_eq!(parse_roles(&names).err(), Some("sell".to_string()));
}

#[test]
fn texts_compare_by_characters() {
    assert!(same_text("añb", "añb"));
    assert!(!same_text("añb", "anb"));
    assert!(!same_text("ab", "abc"));
}
