use medtrack::credential::HashParams;
use medtrack::middleware::Authenticated;
use medtrack::service::{check_login, prepare_password, AuthService, ServiceError};
use medtrack::session::ExpiryPolicy;
use medtrack::token_utils::SigningKey;

fn service() -> AuthService {
    let key = SigningKey::new(b"0123456789abcdef".to_vec()).unwrap();
    AuthService::new(key, ExpiryPolicy::Ignore, HashParams::new(64, 1, 1, 32).unwrap())
}

fn now() -> i64 {
    std::time::SystemTime::now()
        .duration_since(std::time::UNIX_EPOCH)
        .unwrap()
        .as_secs() as i64
}

#[test]
fn signup_login_access_logout_flow() {
    let mut svc = service();
    let profile = svc.signup("alice".to_string(), "Password1").unwrap();
    assert_eq!(profile.username, "alice");
    assert_eq!(profile.created, profile.updated);
    let token = svc.login("alice", "Password1").unwrap();
    let header = format!("Bearer {}", token);
    let principal = svc.authenticate(Some(&header), now());
    let session = principal.unwrap();
    assert_eq!(session.user_id, profile.id);
    let auth = Authenticated::from_request(principal).unwrap();
    let me = svc.get_user(&auth).unwrap();
    assert_eq!(me.user.username, "alice");
    assert_eq!(me.sessions.len(), 1);
    svc.logout(&auth);
    let after = svc.authenticate(Some(&header), now());
    assert_eq!(after, None);
    assert!(Authenticated::from_request(after).is_err());
}

#[test]
fn signup_rejects_weak_password() {
    let mut svc = service();
    assert!(matches!(svc.signup("bob".to_string(), "password1"), Err(ServiceError::WeakPassword)));
    assert!(matches!(svc.login("bob", "password1"), Err(ServiceError::InvalidCredentials)));
}

#[test]
fn signup_rejects_taken_username() {
    let mut svc = service();
    svc.signup_at("alice".to_string(), "Password1", 1, 100).unwrap();
    assert!(matches!(svc.signup_at("alice".to_string(), "Password2", 2, 100), Err(ServiceError::UsernameTaken)));
    assert!(svc.login("alice", "Password1").is_ok());
    assert!(svc.login("alice", "Password2").is_err());
}

#[test]
fn signup_with_taken_id_is_storage_error() {
    let mut svc = service();
    svc.signup_at("alice".to_string(), "Password1", 1, 100).unwrap();
    assert!(matches!(svc.signup_at("carol".to_string(), "Password1", 1, 100), Err(ServiceError::Storage)));
}

#[test]
fn signup_at_records_given_id_and_time() {
    let mut svc = service();
    let p = svc.signup_at("alice".to_string(), "Password1", 42, 1_000).unwrap();
    assert_eq!(p.id, 42);
    assert_eq!(p.created, 1_000);
    assert_eq!(p.updated, 1_000);
}

#[test]
fn login_does_not_tell_which_factor_failed() {
    let mut svc = service();
    svc.signup_at("alice".to_string(), "Password1", 1, 100).unwrap();
    assert!(matches!(svc.login("alice", "Wrong1234"), Err(ServiceError::InvalidCredentials)));
    assert!(matches!(svc.login("mallory", "Password1"), Err(ServiceError::InvalidCredentials)));
}

#[test]
fn login_at_with_taken_session_id_is_storage_error() {
    let mut svc = service();
    svc.signup_at("alice".to_string(), "Password1", 1, 100).unwrap();
    svc.login_at("alice", "Password1", 9, 100).unwrap();
    assert!(matches!(svc.login_at("alice", "Password1", 9, 100), Err(ServiceError::Storage)));
}

#[test]
fn two_logins_give_two_live_sessions() {
    let mut svc = service();
    svc.signup_at("alice".to_string(), "Password1", 1, 100).unwrap();
    let t1 = svc.login("alice", "Password1").unwrap();
    let t2 = svc.login("alice", "Password1").unwrap();
    assert_ne!(t1, t2);
    let h1 = format!("Bearer {}", t1);
    let h2 = format!("Bearer {}", t2);
    let s1 = svc.authenticate(Some(&h1), now()).unwrap();
    let s2 = svc.authenticate(Some(&h2), now()).unwrap();
    assert_ne!(s1.session_id, s2.session_id);
    let a1 = Authenticated::from_request(Some(s1)).unwrap();
    assert_eq!(svc.get_user(&a1).unwrap().sessions.len(), 2);
    svc.logout(&a1);
    assert_eq!(svc.authenticate(Some(&h1), now()), None);
    assert_eq!(svc.authenticate(Some(&h2), now()), Some(s2));
}

#[test]
fn logout_twice_succeeds() {
    let mut svc = service();
    svc.signup_at("alice".to_string(), "Password1", 1, 100).unwrap();
    let t = svc.login("alice", "Password1").unwrap();
    let s = svc.authenticate(Some(&format!("Bearer {}", t)), now()).unwrap();
    let a = Authenticated::from_request(Some(s)).unwrap();
    svc.logout(&a);
    svc.logout(&a);
    assert_eq!(svc.authenticate(Some(&format!("Bearer {}", t)), now()), None);
}

#[test]
fn get_user_of_unknown_user_is_not_found() {
    let mut svc = service();
    svc.signup_at("alice".to_string(), "Password1", 1, 100).unwrap();
    let t = svc.login("alice", "Password1").unwrap();
    let mut s = svc.authenticate(Some(&format!("Bearer {}", t)), now()).unwrap();
    s.user_id = 77;
    let a = Authenticated::from_request(Some(s)).unwrap();
    assert!(matches!(svc.get_user(&a), Err(ServiceError::UserNotFound)));
}

#[test]
fn two_phase_signup_and_login() {
    let mut svc = service();
    let params = svc.params();
    assert!(matches!(prepare_password("password1", &params), Err(ServiceError::WeakPassword)));
    let hash = prepare_password("Password1", &params).unwrap();
    let profile = svc.register("alice".to_string(), hash).unwrap();
    let again = prepare_password("Password1", &params).unwrap();
    assert!(matches!(svc.register("alice".to_string(), again), Err(ServiceError::UsernameTaken)));

    let creds = svc.credentials("alice");
    assert_eq!(creds.as_ref().map(|c| c.0), Some(profile.id));
    let wrong = check_login(svc.credentials("alice"), "Password2");
    assert!(matches!(svc.finish_login(wrong), Err(ServiceError::InvalidCredentials)));
    let unknown = check_login(svc.credentials("mallory"), "Password1");
    assert!(matches!(svc.finish_login(unknown), Err(ServiceError::InvalidCredentials)));

    let ok = check_login(creds, "Password1");
    let token = svc.finish_login(ok).unwrap();
    let s = svc.authenticate(Some(&format!("Bearer {}", token)), now()).unwrap();
    assert_eq!(s.user_id, profile.id);
}

#[test]
fn login_token_has_no_white_space_and_authenticates_with_padding() {
    let mut svc = service();
    svc.signup_at("alice".to_string(), "Password1", 1, 100).unwrap();
    let token = svc.login_at("alice", "Password1", 5, 100).unwrap();
    assert!(token.chars().all(|c| c.is_ascii_alphanumeric() || c == '-' || c == '_' || c == '.'));
    let s = svc.authenticate(Some(&format!("Bearer  {}  ", token)), 100).unwrap();
    assert_eq!(s.session_id, 5);
    assert_eq!(s.user_id, 1);
}
