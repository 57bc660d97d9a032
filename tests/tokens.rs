use medtrack::claims::{claims_from_text, claims_to_text, UserToken};
use medtrack::session::{Model, SessionStore, SessionError};
use medtrack::token_utils::{decode_token, verify_token, DecodeError, KeyError, SigningKey};

fn key() -> SigningKey {
    SigningKey::new(b"0123456789abcdef".to_vec()).unwrap()
}

fn sample() -> UserToken {
    UserToken {
        iat: 1_700_000_000,
        exp: 1_700_604_800,
        user: 0x0123456789abcdef0123456789abcdef,
        session: 1,
    }
}

#[test]
fn claims_text_is_compact_json() {
    assert_eq!(
        claims_to_text(&sample()),
        "{\"iat\":1700000000,\"exp\":1700604800,\"user\":\"0123456789abcdef0123456789abcdef\",\"session\":\"00000000000000000000000000000001\"}"
    );
}

#[test]
fn claims_text_extremes() {
    let c = UserToken { iat: i64::MIN, exp: i64::MAX, user: u128::MAX, session: 0 };
    let t = claims_to_text(&c);
    assert_eq!(
        t,
        "{\"iat\":-9223372036854775808,\"exp\":9223372036854775807,\"user\":\"ffffffffffffffffffffffffffffffff\",\"session\":\"00000000000000000000000000000000\"}"
    );
    assert_eq!(claims_from_text(&t), Some(c));
    let z = UserToken { iat: 0, exp: -1, user: 10, session: 255 };
    assert_eq!(claims_from_text(&claims_to_text(&z)), Some(z));
}

#[test]
fn claims_text_round_trip() {
    assert_eq!(claims_from_text(&claims_to_text(&sample())), Some(sample()));
}

#[test]
fn claims_text_rejects_other_forms() {
    let good = claims_to_text(&sample());
    assert_eq!(claims_from_text(&good.replace("\"iat\":1", "\"iat\": 1")), None);
    assert_eq!(claims_from_text(&good.replace("abcdef0123", "ABCDEF0123")), None);
    assert_eq!(claims_from_text(&good.replace("1700000000", "01700000000")), None);
    assert_eq!(claims_from_text(&good.replace("1700000000", "-0")), None);
    assert_eq!(claims_from_text(&format!("{} ", good)), None);
    assert_eq!(claims_from_text(&good[..good.len() - 1]), None);
    assert_eq!(claims_from_text("{}"), None);
    assert_eq!(claims_from_text(""), None);
    assert_eq!(
        claims_from_text("{\"iat\":99999999999999999999,\"exp\":1,\"user\":\"00000000000000000000000000000000\",\"session\":\"00000000000000000000000000000000\"}"),
        None
    );
}

#[test]
fn token_round_trip_gives_session_claims() {
    let mut store = SessionStore::new();
    let s = store.create_at(0xabc, 0xdef, 1_700_000_000).unwrap();
    let t = UserToken::generate(&s, &key());
    assert_eq!(t.split('.').count(), 3);
    let c = decode_token(&key(), &t).unwrap();
    assert_eq!(c, UserToken { iat: s.iat, exp: s.exp, user: s.user_id, session: s.session_id });
    assert_eq!(verify_token(&c, &store), Ok(s));
}

#[test]
fn token_is_deterministic_and_keyed() {
    let s = Model { session_id: 1, user_id: 2, iat: 3, exp: 4 };
    let t1 = UserToken::generate(&s, &key());
    let t2 = UserToken::generate(&s, &key());
    assert_eq!(t1, t2);
    let other = SigningKey::new(b"another secret key".to_vec()).unwrap();
    assert_ne!(UserToken::generate(&s, &other), t1);
}

#[test]
fn token_under_other_key_is_signature_mismatch() {
    let s = Model { session_id: 1, user_id: 2, iat: 3, exp: 4 };
    let t = UserToken::generate(&s, &key());
    let other = SigningKey::new(b"another secret key".to_vec()).unwrap();
    assert_eq!(decode_token(&other, &t), Err(DecodeError::SignatureMismatch));
}

#[test]
fn tampered_token_is_refused() {
    let s = Model { session_id: 1, user_id: 2, iat: 3, exp: 4 };
    let t = UserToken::generate(&s, &key());
    let parts: Vec<&str> = t.split('.').collect();
    let forged_payload = UserToken::generate(&Model { session_id: 1, user_id: 9, iat: 3, exp: 4 }, &key());
    let forged_parts: Vec<&str> = forged_payload.split('.').collect();
    let forged = format!("{}.{}.{}", parts[0], forged_parts[1], parts[2]);
    assert_eq!(decode_token(&key(), &forged), Err(DecodeError::SignatureMismatch));
}

#[test]
fn garbage_token_is_malformed() {
    assert_eq!(decode_token(&key(), "not a token"), Err(DecodeError::MalformedInput));
    assert_eq!(decode_token(&key(), ""), Err(DecodeError::MalformedInput));
    assert_eq!(decode_token(&key(), "a.b.c"), Err(DecodeError::MalformedInput));
}

#[test]
fn other_algorithm_is_unsupported() {
    let claims: serde_json::Value =
        serde_json::from_str("{\"iat\":3,\"exp\":4,\"user\":\"00000000000000000000000000000002\",\"session\":\"00000000000000000000000000000001\"}").unwrap();
    let t = jsonwebtoken::encode(
        &jsonwebtoken::Header::new(jsonwebtoken::Algorithm::HS512),
        &claims,
        &jsonwebtoken::EncodingKey::from_secret(b"0123456789abcdef"),
    )
    .unwrap();
    assert_eq!(decode_token(&key(), &t), Err(DecodeError::UnsupportedAlgorithm));
}

#[test]
fn signed_foreign_payload_is_malformed() {
    let claims: serde_json::Value = serde_json::from_str("{\"sub\":\"x\",\"exp\":4}").unwrap();
    let t = jsonwebtoken::encode(
        &jsonwebtoken::Header::default(),
        &claims,
        &jsonwebtoken::EncodingKey::from_secret(b"0123456789abcdef"),
    )
    .unwrap();
    assert_eq!(decode_token(&key(), &t), Err(DecodeError::MalformedInput));
}

#[test]
fn short_secret_is_refused() {
    assert!(matches!(SigningKey::new(b"short".to_vec()), Err(KeyError::TooShort)));
    assert!(matches!(SigningKey::new(Vec::new()), Err(KeyError::TooShort)));
    assert!(SigningKey::new(vec![7u8; 16]).is_ok());
}

#[test]
fn verify_token_of_revoked_session_is_not_found() {
    let mut store = SessionStore::new();
    let s = store.create_at(2, 1, 3).unwrap();
    let c = decode_token(&key(), &UserToken::generate(&s, &key())).unwrap();
    store.revoke(1).unwrap();
    assert_eq!(verify_token(&c, &store), Err(SessionError::NotFound));
}
