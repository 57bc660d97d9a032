use medtrack::claims::UserToken;
use medtrack::middleware::{authenticate, bearer_token_of, AuthError, Authenticated, AuthenticateMiddlewareFactory};
use medtrack::session::{ExpiryPolicy, SessionStore, ONE_WEEK};
use medtrack::token_utils::SigningKey;

fn key() -> SigningKey {
    SigningKey::new(b"0123456789abcdef".to_vec()).unwrap()
}

#[test]
fn bearer_scheme_is_case_insensitive() {
    assert_eq!(bearer_token_of("Bearer abc"), Some("abc"));
    assert_eq!(bearer_token_of("bearer abc"), Some("abc"));
    assert_eq!(bearer_token_of("BEARER abc"), Some("abc"));
    assert_eq!(bearer_token_of("bEaReR abc"), Some("abc"));
}

#[test]
fn bearer_token_is_trimmed() {
    assert_eq!(bearer_token_of("Bearer   abc \t"), Some("abc"));
    assert_eq!(bearer_token_of("Bearer "), Some(""));
}

#[test]
fn other_schemes_carry_no_token() {
    assert_eq!(bearer_token_of("Basic abc"), None);
    assert_eq!(bearer_token_of("Bearerabc"), None);
    assert_eq!(bearer_token_of("Bearer"), None);
    assert_eq!(bearer_token_of(""), None);
    assert_eq!(bearer_token_of(" Bearer abc"), None);
}

#[test]
fn valid_token_yields_principal() {
    let mut store = SessionStore::new();
    let s = store.create_at(2, 1, 100).unwrap();
    let header = format!("Bearer {}", UserToken::generate(&s, &key()));
    assert_eq!(authenticate(Some(&header), &key(), &store, 100, ExpiryPolicy::Ignore), Some(s));
}

#[test]
fn missing_or_bad_header_yields_none() {
    let mut store = SessionStore::new();
    let s = store.create_at(2, 1, 100).unwrap();
    let token = UserToken::generate(&s, &key());
    assert_eq!(authenticate(None, &key(), &store, 100, ExpiryPolicy::Ignore), None);
    let basic = format!("Basic {}", token);
    assert_eq!(authenticate(Some(&basic), &key(), &store, 100, ExpiryPolicy::Ignore), None);
    assert_eq!(authenticate(Some("Bearer garbage"), &key(), &store, 100, ExpiryPolicy::Ignore), None);
    let other = SigningKey::new(b"another secret key".to_vec()).unwrap();
    let header = format!("Bearer {}", token);
    assert_eq!(authenticate(Some(&header), &other, &store, 100, ExpiryPolicy::Ignore), None);
}

#[test]
fn revoked_session_yields_none() {
    let mut store = SessionStore::new();
    let s = store.create_at(2, 1, 100).unwrap();
    let header = format!("Bearer {}", UserToken::generate(&s, &key()));
    store.revoke(1).unwrap();
    assert_eq!(authenticate(Some(&header), &key(), &store, 100, ExpiryPolicy::Ignore), None);
}

#[test]
fn expired_session_yields_none_only_when_enforced() {
    let mut store = SessionStore::new();
    let s = store.create_at(2, 1, 100).unwrap();
    let header = format!("Bearer {}", UserToken::generate(&s, &key()));
    let late = 100 + ONE_WEEK;
    assert_eq!(authenticate(Some(&header), &key(), &store, late, ExpiryPolicy::Ignore), Some(s));
    assert_eq!(authenticate(Some(&header), &key(), &store, late, ExpiryPolicy::Enforce), None);
}

#[test]
fn factory_transform_applies_configuration() {
    let mut store = SessionStore::new();
    let s = store.create_at(2, 1, 100).unwrap();
    let header = format!("bearer {}", UserToken::generate(&s, &key()));
    let factory = AuthenticateMiddlewareFactory::new(key(), ExpiryPolicy::Enforce);
    let step = factory.new_transform();
    assert_eq!(step.call(Some(&header), &store, 100), Some(s));
    assert_eq!(step.call(Some(&header), &store, 100 + ONE_WEEK), None);
    assert_eq!(factory.expiry_policy(), ExpiryPolicy::Enforce);
}

#[test]
fn extractor_requires_principal() {
    let mut store = SessionStore::new();
    let s = store.create_at(2, 1, 100).unwrap();
    let a = Authenticated::from_request(Some(s)).unwrap();
    assert_eq!(*a.session(), s);
    assert!(matches!(Authenticated::from_request(None), Err(AuthError::Unauthorized)));
}
