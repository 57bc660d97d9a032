use medtrack::credential::{hash_password, verify_password, HashParams, PasswordHash};

fn light() -> HashParams {
    HashParams::new(64, 1, 1, 32).unwrap()
}

#[test]
fn hash_then_verify_accepts_same_password() {
    let h = hash_password("Password1", &light()).unwrap();
    assert!(verify_password(&h, "Password1"));
}

#[test]
fn hash_then_verify_rejects_other_password() {
    let h = hash_password("Password1", &light()).unwrap();
    assert!(!verify_password(&h, "Password2"));
    assert!(!verify_password(&h, "password1"));
    assert!(!verify_password(&h, ""));
}

#[test]
fn two_hashes_differ_and_both_verify() {
    let h1 = hash_password("Password1", &light()).unwrap();
    let h2 = hash_password("Password1", &light()).unwrap();
    assert_ne!(h1.as_str(), h2.as_str());
    assert!(verify_password(&h1, "Password1"));
    assert!(verify_password(&h2, "Password1"));
}

#[test]
fn hash_is_encoded_argon2id_with_given_costs() {
    let h = hash_password("Password1", &light()).unwrap();
    assert!(h.as_str().starts_with("$argon2id$v=19$m=64,t=1,p=1$"));
    assert!(!h.as_str().contains("Password1"));
}

#[test]
fn malformed_hash_fails_closed() {
    let h = PasswordHash::from_encoded("not a hash".to_string());
    assert!(!verify_password(&h, "Password1"));
    let empty = PasswordHash::from_encoded(String::new());
    assert!(!verify_password(&empty, ""));
}

#[test]
fn stored_hash_round_trips_through_text() {
    let h = hash_password("Password1", &light()).unwrap();
    let back = PasswordHash::from_encoded(h.as_str().to_string());
    assert!(verify_password(&back, "Password1"));
}

#[test]
fn recommended_params() {
    let p = HashParams::recommended();
    assert_eq!(p.mem_cost, 65536);
    assert_eq!(p.time_cost, 10);
    assert_eq!(p.lanes, 4);
    assert_eq!(p.hash_length, 32);
}

#[test]
fn params_outside_argon2_limits_are_refused() {
    assert!(HashParams::new(64, 1, 0, 32).is_none());
    assert!(HashParams::new(31, 1, 4, 32).is_none());
    assert!(HashParams::new(64, 0, 1, 32).is_none());
    assert!(HashParams::new(64, 1, 1, 3).is_none());
    assert!(HashParams::new(0x20_0001, 1, 1, 32).is_none());
    assert!(HashParams::new(32, 1, 4, 4).is_some());
    assert!(HashParams::new(1024, 1, 17, 32).is_none());
    assert!(HashParams::new(1024, 1, 16, 32).is_some());
}

#[test]
fn stored_hash_is_not_the_password() {
    let h = hash_password("Password1", &light()).unwrap();
    assert_ne!(h.as_str(), "Password1");
    assert!(h.as_str().starts_with("$argon2id$v=19$"));
    assert_eq!(h.duplicate().as_str(), h.as_str());
}
