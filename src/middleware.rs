//! The authentication step run on every request: it reads the bearer token,
//! decodes it, checks that its session is still live and yields the session
//! as the request's principal. It never rejects a request itself; handlers
//! that need a principal ask for one through `Authenticated`.

use vstd::prelude::*;
use vstd::string::StrSliceExecFns;
use crate::session::{self, keys_match, validate_at_spec, ExpiryPolicy, SessionStore};
use crate::text::{is_white_space, str_trim, trim_end, trim_start, trimmed};
use crate::claims::UserToken;
use crate::token_utils::{
    decode_spec, decode_token, encodes, is_token_char, lemma_token_round_trip, session_claims,
    SigningKey,
};

verus! {

/// `c` with an ASCII capital letter turned into its small letter.
pub open spec fn fold_ascii(c: char) -> char {
    if 'A' <= c <= 'Z' {
        ((c as u8) + 32) as char
    } else {
        c
    }
}

/// The scheme prefix, in small letters.
pub open spec fn bearer_prefix() -> Seq<char> {
    seq!['b', 'e', 'a', 'r', 'e', 'r', ' ']
}

/// Whether `h` starts with `Bearer ` in any mix of letter case.
pub open spec fn has_bearer_prefix(h: Seq<char>) -> bool {
    h.len() >= 7 && forall|i: int| 0 <= i < 7 ==> fold_ascii(#[trigger] h[i]) == bearer_prefix()[i]
}

/// The token that an `Authorization` header value carries.
pub open spec fn bearer_token(h: Seq<char>) -> Option<Seq<char>> {
    if has_bearer_prefix(h) {
        Some(trimmed(h.skip(7)))
    } else {
        None
    }
}

/// The claims of the bearer token in `header`, when it carries one that decodes
/// under `key`.
pub open spec fn header_claims(header: Option<Seq<char>>, key: Seq<u8>) -> Option<UserToken> {
    match header {
        None => None,
        Some(h) => match bearer_token(h) {
            None => None,
            Some(tok) => decode_spec(key, tok),
        },
    }
}

/// `m` is the stored session that the claims of `header` name.
pub open spec fn principal_matches_header(
    header: Option<Seq<char>>,
    key: Seq<u8>,
    t: Map<u128, session::Model>,
    m: session::Model,
) -> bool {
    header_claims(header, key) matches Some(c) && m.session_id == c.session && m.user_id == c.user
        && t.contains_key(c.session) && t[c.session] == m
}

/// The principal for a request with `Authorization` header `header`, under
/// `key`, the live sessions `t`, the time `now` and the expiry policy.
pub open spec fn principal_of(
    header: Option<Seq<char>>,
    key: Seq<u8>,
    t: Map<u128, session::Model>,
    now: i64,
    policy: ExpiryPolicy,
) -> Option<session::Model> {
    match header {
        None => None,
        Some(h) => match bearer_token(h) {
            None => None,
            Some(tok) => match decode_spec(key, tok) {
                None => None,
                Some(c) => match validate_at_spec(t, c.session, c.user, now, policy) {
                    Ok(m) => Some(m),
                    Err(_) => None,
                },
            },
        },
    }
}

fn fold_ascii_char(c: char) -> (r: char)
    ensures
        r == fold_ascii(c),
{
    if 'A' <= c && c <= 'Z' {
        ((c as u8) + 32) as char
    } else {
        c
    }
}

/// The token of an `Authorization` header value, if it uses the bearer scheme.
pub fn bearer_token_of(h: &str) -> (r: Option<&str>)
    ensures
        r matches Some(t) ==> bearer_token(h@) == Some(t@),
        r is None ==> bearer_token(h@) is None,
{
    let n = h.unicode_len();
    if n < 7 {
        return None;
    }
    let prefix = "bearer ";
    proof {
        reveal_strlit("bearer ");
    }
    assert(prefix@ =~= bearer_prefix());
    let mut i: usize = 0;
    while i < 7
        invariant
            n == h@.len(),
            n >= 7,
            i <= 7,
            prefix@ == bearer_prefix(),
            forall|j: int| 0 <= j < i ==> fold_ascii(#[trigger] h@[j]) == bearer_prefix()[j],
        decreases 7 - i,
    {
        if fold_ascii_char(h.get_char(i)) != prefix.get_char(i) {
            return None;
        }
        i = i + 1;
    }
    let rest = h.substring_char(7, n);
    assert(rest@ =~= h@.skip(7));
    Some(str_trim(rest))
}

/// Decides the principal of one request.
pub fn authenticate(
    header: Option<&str>,
    key: &SigningKey,
    sessions: &SessionStore,
    now: i64,
    policy: ExpiryPolicy,
) -> (r: Option<session::Model>)
    requires
        sessions.wf(),
    ensures
        r == principal_of(
            match header {
                Some(h) => Some(h@),
                None => None,
            },
            key@,
            sessions@,
            now,
            policy,
        ),
        r matches Some(m) ==> principal_matches_header(
            match header {
                Some(h) => Some(h@),
                None => None,
            },
            key@,
            sessions@,
            m,
        ),
{
    let h = match header {
        Some(h) => h,
        None => {
            return None;
        },
    };
    let token = match bearer_token_of(h) {
        Some(t) => t,
        None => {
            return None;
        },
    };
    let claims = match decode_token(key, token) {
        Ok(c) => c,
        Err(_) => {
            return None;
        },
    };
    match sessions.validate_at(claims.session, claims.user, now, policy) {
        Ok(m) => Some(m),
        Err(_) => None,
    }
}

/// The configuration of the authentication step, built once at startup: the
/// signing key and the expiry policy.
pub struct AuthenticateMiddlewareFactory {
    key: SigningKey,
    policy: ExpiryPolicy,
}

/// The authentication step as applied to requests.
pub struct AuthNMiddleware<'a> {
    key: &'a SigningKey,
    policy: ExpiryPolicy,
}

impl AuthenticateMiddlewareFactory {
    /// The configuration with `key` and `policy`.
    pub fn new(key: SigningKey, policy: ExpiryPolicy) -> (r: AuthenticateMiddlewareFactory)
        ensures
            r.key()@ == key@,
            r.policy() == policy,
    {
        AuthenticateMiddlewareFactory { key, policy }
    }

    pub closed spec fn key(&self) -> SigningKey {
        self.key
    }

    pub closed spec fn policy(&self) -> ExpiryPolicy {
        self.policy
    }

    /// The signing key.
    pub fn signing_key(&self) -> (r: &SigningKey)
        ensures
            r@ == self.key()@,
    {
        &self.key
    }

    /// The expiry policy.
    pub fn expiry_policy(&self) -> (r: ExpiryPolicy)
        ensures
            r == self.policy(),
    {
        self.policy
    }

    /// The step that applies this configuration.
    pub fn new_transform(&self) -> (r: AuthNMiddleware<'_>)
        ensures
            r.key()@ == self.key()@,
            r.policy() == self.policy(),
    {
        AuthNMiddleware { key: &self.key, policy: self.policy }
    }
}

impl<'a> AuthNMiddleware<'a> {
    pub closed spec fn key(&self) -> SigningKey {
        *self.key
    }

    pub closed spec fn policy(&self) -> ExpiryPolicy {
        self.policy
    }

    /// The principal of a request with `Authorization` header `header`.
    pub fn call(&self, header: Option<&str>, sessions: &SessionStore, now: i64) -> (r: Option<
        session::Model,
    >)
        requires
            sessions.wf(),
        ensures
            r == principal_of(
                match header {
                    Some(h) => Some(h@),
                    None => None,
                },
                self.key()@,
                sessions@,
                now,
                self.policy(),
            ),
            r matches Some(m) ==> principal_matches_header(
                match header {
                    Some(h) => Some(h@),
                    None => None,
                },
                self.key()@,
                sessions@,
                m,
            ),
    {
        authenticate(header, self.key, sessions, now, self.policy)
    }
}

/// The header value `Bearer ` followed by `token`.
pub open spec fn bearer_header(token: Seq<char>) -> Seq<char> {
    seq!['B', 'e', 'a', 'r', 'e', 'r', ' '] + token
}

proof fn lemma_trim_token(t: Seq<char>)
    requires
        forall|i: int| 0 <= i < t.len() ==> is_token_char(#[trigger] t[i]),
    ensures
        trimmed(t) == t,
{
    if t.len() > 0 {
        assert(is_token_char(t[0]));
        assert(is_token_char(t.last()));
    }
    assert(trim_start(t) == t);
    assert(trim_end(t) == t);
}

/// A request that carries `Bearer ` and the token of a stored session gets
/// that session as its principal, unless expiry is enforced and has passed.
pub proof fn lemma_session_token_authenticates(
    key: Seq<u8>,
    t: Map<u128, session::Model>,
    s: session::Model,
    token: Seq<char>,
    now: i64,
    policy: ExpiryPolicy,
)
    requires
        encodes(key, s, token),
        t.contains_key(s.session_id),
        t[s.session_id] == s,
        policy == ExpiryPolicy::Ignore || !s.expired_at(now),
    ensures
        principal_of(Some(bearer_header(token)), key, t, now, policy) == Some(s),
{
    let h = bearer_header(token);
    assert(h[0] == 'B' && h[1] == 'e' && h[2] == 'a' && h[3] == 'r' && h[4] == 'e' && h[5] == 'r'
        && h[6] == ' ');
    assert(fold_ascii('B') == 'b');
    assert(has_bearer_prefix(h));
    assert(h.skip(7) =~= token);
    lemma_trim_token(token);
    assert(bearer_token(h) == Some(token));
    lemma_token_round_trip(key, s, token);
}

/// Once the principal's session is removed from the table, the same header
/// yields no principal.
pub proof fn lemma_removed_session_rejected(
    header: Option<Seq<char>>,
    key: Seq<u8>,
    t: Map<u128, session::Model>,
    now: i64,
    policy: ExpiryPolicy,
    later: i64,
    later_policy: ExpiryPolicy,
)
    requires
        keys_match(t),
        principal_of(header, key, t, now, policy) is Some,
    ensures
        principal_of(
            header,
            key,
            t.remove(principal_of(header, key, t, now, policy)->0.session_id),
            later,
            later_policy,
        ) is None,
{
    let c = header_claims(header, key)->0;
    assert(t.contains_key(c.session));
    assert(t[c.session].session_id == c.session);
}

/// A request's principal, for handlers that require one.
pub struct Authenticated(pub session::Model);

/// A request had no principal where one is required.
#[derive(Clone, Copy, Debug, PartialEq, Eq, Structural)]
pub enum AuthError {
    Unauthorized,
}

impl Authenticated {
    /// The principal attached to a request, or an authorization failure.
    pub fn from_request(principal: Option<session::Model>) -> (r: Result<Authenticated, AuthError>)
        ensures
            r is Ok <==> principal is Some,
            r matches Ok(a) ==> principal == Some(a.0),
            r matches Err(e) ==> e == AuthError::Unauthorized,
    {
        match principal {
            Some(m) => Ok(Authenticated(m)),
            None => Err(AuthError::Unauthorized),
        }
    }

    /// The session behind the principal.
    pub fn session(&self) -> (r: &session::Model)
        ensures
            *r == self.0,
    {
        &self.0
    }
}

} // verus!
