//! Signed bearer tokens: HS256 JSON Web Tokens whose payload is the claims
//! text of a session.

use vstd::prelude::*;
use jsonwebtoken::errors::ErrorKind;
use jsonwebtoken::{Algorithm, DecodingKey, EncodingKey, Header, Validation};
use serde_json::value::RawValue;
use crate::claims::{claims_from_text, claims_of_text, claims_text, claims_to_text, UserToken};
use crate::session::{self, validate_spec, SessionError, SessionStore};

verus! {

#[verifier::external_type_specification]
#[verifier::external_body]
pub struct ExJwtError(jsonwebtoken::errors::Error);

/// Fewest bytes a signing secret may have.
pub const MIN_SECRET_LEN: usize = 16;

/// The token that jsonwebtoken produces with the default header (HS256) for
/// the JSON text `payload` under the HMAC secret `key`.
pub uninterp spec fn jwt_hs256_token(key: Seq<u8>, payload: Seq<char>) -> Seq<char>;

/// What jsonwebtoken makes of `token` under the HMAC secret `key`, checking
/// the HS256 signature and no time-based claim: the payload text, or the kind
/// of failure it reports.
pub uninterp spec fn jwt_hs256_decode(key: Seq<u8>, token: Seq<char>) -> Result<
    Seq<char>,
    JwtFailure,
>;

/// The payload text that decoding `token` under `key` recovers, if any.
pub open spec fn jwt_hs256_payload(key: Seq<u8>, token: Seq<char>) -> Option<Seq<char>> {
    match jwt_hs256_decode(key, token) {
        Ok(p) => Some(p),
        Err(_) => None,
    }
}

/// A character of a compact token: the base64url alphabet and the dot.
pub open spec fn is_token_char(c: char) -> bool {
    ||| 'A' <= c <= 'Z'
    ||| 'a' <= c <= 'z'
    ||| '0' <= c <= '9'
    ||| c == '-'
    ||| c == '_'
    ||| c == '.'
}

/// The process-wide secret that signs and checks tokens. It is built once at
/// startup and never changes.
pub struct SigningKey {
    secret: Vec<u8>,
}

impl View for SigningKey {
    type V = Seq<u8>;

    closed spec fn view(&self) -> Seq<u8> {
        self.secret@
    }
}

/// Why a signing secret was refused.
#[derive(Clone, Copy, Debug, PartialEq, Eq, Structural)]
pub enum KeyError {
    /// The secret has fewer than `MIN_SECRET_LEN` bytes.
    TooShort,
}

impl SigningKey {
    /// A signing key from its secret bytes.
    pub fn new(secret: Vec<u8>) -> (r: Result<SigningKey, KeyError>)
        ensures
            r is Ok <==> secret@.len() >= MIN_SECRET_LEN,
            r matches Ok(k) ==> k@ == secret@,
            r matches Err(e) ==> e == KeyError::TooShort,
    {
        if secret.len() < MIN_SECRET_LEN {
            Err(KeyError::TooShort)
        } else {
            Ok(SigningKey { secret })
        }
    }
}

/// Why a token was refused.
#[derive(Clone, Copy, Debug, PartialEq, Eq, Structural)]
pub enum DecodeError {
    /// Not a token of the expected shape, or a payload that is not claims text.
    MalformedInput,
    /// The signature does not match the secret.
    SignatureMismatch,
    /// The header names an algorithm other than HS256.
    UnsupportedAlgorithm,
}

/// The failures of jsonwebtoken that decoding tells apart.
#[derive(Clone, Copy, Debug, PartialEq, Eq, Structural)]
pub enum JwtFailure {
    /// The signature does not match.
    InvalidSignature,
    /// The algorithm is not one that decoding allows.
    InvalidAlgorithm,
    /// No algorithm is allowed at all.
    MissingAlgorithm,
    /// Any other failure: shape, base64, JSON.
    Other,
}

/// The decoding error for a jsonwebtoken failure.
pub open spec fn decode_error_of(f: JwtFailure) -> DecodeError {
    match f {
        JwtFailure::InvalidSignature => DecodeError::SignatureMismatch,
        JwtFailure::InvalidAlgorithm => DecodeError::UnsupportedAlgorithm,
        JwtFailure::MissingAlgorithm => DecodeError::UnsupportedAlgorithm,
        JwtFailure::Other => DecodeError::MalformedInput,
    }
}

/// The decoding error for a jsonwebtoken failure.
pub fn to_decode_error(f: JwtFailure) -> (r: DecodeError)
    ensures
        r == decode_error_of(f),
{
    match f {
        JwtFailure::InvalidSignature => DecodeError::SignatureMismatch,
        JwtFailure::InvalidAlgorithm => DecodeError::UnsupportedAlgorithm,
        JwtFailure::MissingAlgorithm => DecodeError::UnsupportedAlgorithm,
        JwtFailure::Other => DecodeError::MalformedInput,
    }
}

/// Relies on `jsonwebtoken::encode` with `Header::default()` (HS256) and
/// `EncodingKey::from_secret`, the claims handed over as raw JSON text through
/// `serde_json::value::RawValue::from_string`. Claims text is a JSON object, so
/// both calls succeed; the token depends on its arguments alone; and
/// `jsonwebtoken::decode` with the same secret checks the HMAC by signing again
/// and gives back the same text. The token is three base64url parts (no padding)
/// joined by dots.
#[verifier::external_body]
fn jwt_encode_hs256(key: &[u8], payload: &str) -> (r: Result<String, jsonwebtoken::errors::Error>)
    requires
        exists|c: UserToken| claims_text(c) == payload@,
    ensures
        r is Ok,
        r matches Ok(t) ==> t@ == jwt_hs256_token(key@, payload@),
        r matches Ok(t) ==> jwt_hs256_payload(key@, t@) == Some(payload@),
        r matches Ok(t) ==> forall|i: int| 0 <= i < t@.len() ==> is_token_char(#[trigger] t@[i]),
{
    let raw = RawValue::from_string(payload.to_string())?;
    jsonwebtoken::encode(&Header::default(), &raw, &EncodingKey::from_secret(key))
}

/// Relies on `jsonwebtoken::decode` for HS256 with `DecodingKey::from_secret`,
/// with expiry not checked and no claim required, the payload taken as raw
/// JSON text: nothing in it depends on the clock, so the outcome depends on its
/// arguments alone. Its error's `kind()` is told apart for the failures that
/// decoding distinguishes.
#[verifier::external_body]
fn jwt_decode_hs256(key: &[u8], token: &str) -> (r: Result<String, JwtFailure>)
    ensures
        r is Ok <==> jwt_hs256_decode(key@, token@) is Ok,
        r matches Ok(p) ==> (jwt_hs256_decode(key@, token@) matches Ok(q) && q == p@),
        r matches Err(f) ==> (jwt_hs256_decode(key@, token@) matches Err(g) && g == f),
{
    let mut validation = Validation::new(Algorithm::HS256);
    validation.validate_exp = false;
    validation.required_spec_claims.clear();
    match jsonwebtoken::decode::<Box<RawValue>>(token, &DecodingKey::from_secret(key), &validation) {
        Ok(data) => Ok(data.claims.get().to_string()),
        Err(e) => Err(match e.kind() {
            ErrorKind::InvalidSignature => JwtFailure::InvalidSignature,
            ErrorKind::InvalidAlgorithm => JwtFailure::InvalidAlgorithm,
            ErrorKind::MissingAlgorithm => JwtFailure::MissingAlgorithm,
            _ => JwtFailure::Other,
        }),
    }
}

/// The claims that a token for session `s` carries.
pub open spec fn session_claims(s: session::Model) -> UserToken {
    UserToken { iat: s.iat, exp: s.exp, user: s.user_id, session: s.session_id }
}

/// What decoding `token` under `key` gives when it succeeds: `None` where it fails.
pub open spec fn decode_spec(key: Seq<u8>, token: Seq<char>) -> Option<UserToken> {
    match jwt_hs256_payload(key, token) {
        Some(p) => claims_of_text(p),
        None => None,
    }
}

/// `t` is the token that encoding session `s` under `key` gives.
pub open spec fn encodes(key: Seq<u8>, s: session::Model, t: Seq<char>) -> bool {
    &&& t == jwt_hs256_token(key, claims_text(session_claims(s)))
    &&& jwt_hs256_payload(key, t) == Some(claims_text(session_claims(s)))
    &&& forall|i: int| 0 <= i < t.len() ==> is_token_char(#[trigger] t[i])
}

impl UserToken {
    /// The claims of session `model`.
    pub fn from_session(model: &session::Model) -> (r: UserToken)
        ensures
            r == session_claims(*model),
    {
        UserToken {
            iat: model.iat,
            exp: model.exp,
            user: model.user_id,
            session: model.session_id,
        }
    }

    /// The signed token for session `model`.
    pub fn generate(model: &session::Model, key: &SigningKey) -> (r: String)
        ensures
            encodes(key@, *model, r@),
    {
        let claims = UserToken::from_session(model);
        let text = claims_to_text(&claims);
        match jwt_encode_hs256(key.secret.as_slice(), text.as_str()) {
            Ok(t) => t,
            Err(_) => String::new(),
        }
    }
}

/// Checks the signature of `token` and reads its claims. Whether the session
/// is still live is not decided here.
pub fn decode_token(key: &SigningKey, token: &str) -> (r: Result<UserToken, DecodeError>)
    ensures
        r is Ok <==> decode_spec(key@, token@) is Some,
        r matches Ok(c) ==> decode_spec(key@, token@) == Some(c),
        (jwt_hs256_payload(key@, token@) is Some && decode_spec(key@, token@) is None) ==> r
            == Err::<UserToken, DecodeError>(DecodeError::MalformedInput),
        jwt_hs256_decode(key@, token@) matches Err(f) ==> r == Err::<UserToken, DecodeError>(
            decode_error_of(f),
        ),
{
    match jwt_decode_hs256(key.secret.as_slice(), token) {
        Ok(payload) => match claims_from_text(payload.as_str()) {
            Some(c) => Ok(c),
            None => Err(DecodeError::MalformedInput),
        },
        Err(f) => Err(to_decode_error(f)),
    }
}

/// The stored session that decoded claims name, provided it still exists and
/// belongs to the named user.
pub fn verify_token(claims: &UserToken, sessions: &SessionStore) -> (r: Result<
    session::Model,
    SessionError,
>)
    requires
        sessions.wf(),
    ensures
        r == validate_spec(sessions@, claims.session, claims.user),
{
    sessions.validate(claims.session, claims.user)
}

/// Decoding the token of a session gives back exactly that session's issue
/// time, expiry, user id and session id.
pub proof fn lemma_token_round_trip(key: Seq<u8>, s: session::Model, t: Seq<char>)
    requires
        encodes(key, s, t),
    ensures
        decode_spec(key, t) == Some(session_claims(s)),
{
    crate::claims::lemma_claims_round_trip(session_claims(s));
}

} // verus!
