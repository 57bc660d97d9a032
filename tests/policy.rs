use medtrack::utils::{is_password_valid, validate_cron_expression};

#[test]
fn policy_accepts_mixed_password() {
    assert!(is_password_valid("Password1"));
}

#[test]
fn policy_rejects_missing_uppercase() {
    assert!(!is_password_valid("password1"));
}

#[test]
fn policy_rejects_missing_lowercase() {
    assert!(!is_password_valid("PASSWORD1"));
}

#[test]
fn policy_rejects_missing_digit() {
    assert!(!is_password_valid("Password"));
}

#[test]
fn policy_rejects_whitespace() {
    assert!(!is_password_valid("Pass 1234"));
    assert!(!is_password_valid("Pass\t1234word"));
    assert!(!is_password_valid("Pass\u{3000}1234word"));
}

#[test]
fn policy_rejects_short() {
    assert!(!is_password_valid("Sh0rt"));
    assert!(!is_password_valid("Passwo1"));
    assert!(is_password_valid("Passwo12"));
}

#[test]
fn policy_length_bounds_in_bytes() {
    let at_max = format!("Aa1{}", "x".repeat(125));
    assert_eq!(at_max.len(), 128);
    assert!(is_password_valid(&at_max));
    let over = format!("Aa1{}", "x".repeat(126));
    assert!(!is_password_valid(&over));
    assert!(!is_password_valid(""));
}

#[test]
fn policy_counts_non_ascii_letters() {
    assert!(is_password_valid("Ärger123x"));
    assert!(!is_password_valid("ÄRGER123X"));
}

#[test]
fn cron_expressions() {
    assert!(validate_cron_expression("0 30 9 * * * *".to_string()));
    assert!(validate_cron_expression("0 0 8,20 * * Mon-Fri".to_string()));
    assert!(!validate_cron_expression("not a schedule".to_string()));
    assert!(!validate_cron_expression(String::new()));
}
