use medtrack::session::{ExpiryPolicy, Model, SessionError, SessionStore, ONE_WEEK};

const ALICE: u128 = 0x11;
const BOB: u128 = 0x22;

#[test]
fn create_sets_issue_and_expiry() {
    let mut store = SessionStore::new();
    let s = store.create_at(ALICE, 7, 1_700_000_000).unwrap();
    assert_eq!(s, Model { session_id: 7, user_id: ALICE, iat: 1_700_000_000, exp: 1_700_604_800 });
    assert_eq!(s.exp - s.iat, ONE_WEEK);
    assert_eq!(ONE_WEEK, 604_800);
}

#[test]
fn create_with_clock_draws_fresh_session() {
    let mut store = SessionStore::new();
    let s = store.create(ALICE).unwrap();
    assert_eq!(s.user_id, ALICE);
    assert_eq!(s.exp, s.iat + ONE_WEEK);
    assert_eq!(store.validate(s.session_id, ALICE), Ok(s));
}

#[test]
fn validate_with_other_user_is_not_found() {
    let mut store = SessionStore::new();
    let s = store.create_at(ALICE, 7, 100).unwrap();
    assert_eq!(store.validate(s.session_id, BOB), Err(SessionError::NotFound));
    assert_eq!(store.validate(s.session_id, ALICE), Ok(s));
}

#[test]
fn revoked_session_is_not_found() {
    let mut store = SessionStore::new();
    let s = store.create_at(ALICE, 7, 100).unwrap();
    assert_eq!(store.revoke(s.session_id), Ok(()));
    assert_eq!(store.validate(s.session_id, s.user_id), Err(SessionError::NotFound));
}

#[test]
fn revoking_twice_reports_not_found() {
    let mut store = SessionStore::new();
    store.create_at(ALICE, 7, 100).unwrap();
    assert_eq!(store.revoke(7), Ok(()));
    assert_eq!(store.revoke(7), Err(SessionError::NotFound));
}

#[test]
fn two_sessions_of_one_user_are_independent() {
    let mut store = SessionStore::new();
    let s1 = store.create(ALICE).unwrap();
    let s2 = store.create(ALICE).unwrap();
    assert_ne!(s1.session_id, s2.session_id);
    assert_eq!(store.validate(s1.session_id, ALICE), Ok(s1));
    assert_eq!(store.validate(s2.session_id, ALICE), Ok(s2));
    store.revoke(s1.session_id).unwrap();
    assert_eq!(store.validate(s1.session_id, ALICE), Err(SessionError::NotFound));
    assert_eq!(store.validate(s2.session_id, ALICE), Ok(s2));
    store.revoke(s2.session_id).unwrap();
    assert_eq!(store.validate(s2.session_id, ALICE), Err(SessionError::NotFound));
}

#[test]
fn duplicate_session_id_is_refused() {
    let mut store = SessionStore::new();
    store.create_at(ALICE, 7, 100).unwrap();
    assert_eq!(store.create_at(BOB, 7, 200), Err(SessionError::DuplicateId));
    assert_eq!(store.validate(7, ALICE).unwrap().iat, 100);
    assert_eq!(store.validate(7, BOB), Err(SessionError::NotFound));
}

#[test]
fn clock_too_late_is_refused() {
    let mut store = SessionStore::new();
    assert_eq!(store.create_at(ALICE, 7, i64::MAX - ONE_WEEK + 1), Err(SessionError::ClockOutOfRange));
    let s = store.create_at(ALICE, 8, i64::MAX - ONE_WEEK).unwrap();
    assert_eq!(s.exp, i64::MAX);
    assert_eq!(store.validate(7, ALICE), Err(SessionError::NotFound));
}

#[test]
fn expiry_is_ignored_unless_enforced() {
    let mut store = SessionStore::new();
    let s = store.create_at(ALICE, 7, 100).unwrap();
    let late = 100 + ONE_WEEK;
    assert_eq!(store.validate_at(7, ALICE, late, ExpiryPolicy::Ignore), Ok(s));
    assert_eq!(store.validate_at(7, ALICE, late, ExpiryPolicy::Enforce), Err(SessionError::NotFound));
    assert_eq!(store.validate_at(7, ALICE, late - 1, ExpiryPolicy::Enforce), Ok(s));
    assert!(s.is_expired(late));
    assert!(!s.is_expired(late - 1));
}

#[test]
fn sessions_of_lists_only_that_user() {
    let mut store = SessionStore::new();
    store.create_at(ALICE, 1, 100).unwrap();
    store.create_at(BOB, 2, 100).unwrap();
    store.create_at(ALICE, 3, 100).unwrap();
    let mut ids: Vec<u128> = store.sessions_of(ALICE).iter().map(|s| s.session_id).collect();
    ids.sort();
    assert_eq!(ids, vec![1, 3]);
    assert_eq!(store.sessions_of(0x99).len(), 0);
}

#[test]
fn insert_refuses_taken_id() {
    let mut store = SessionStore::new();
    let m = Model { session_id: 5, user_id: ALICE, iat: 0, exp: ONE_WEEK };
    assert_eq!(store.insert(m), Ok(()));
    assert_eq!(store.insert(m), Err(SessionError::DuplicateId));
}
