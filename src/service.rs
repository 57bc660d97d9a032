//! The request handlers' decisions: signup, login, logout, the principal of
//! a request and the current user's record. Transport and storage
//! round them are the caller's.

use vstd::prelude::*;
use crate::credential::{
    hash_password, is_argon2id_text, verify_accepts, verify_password, HashParams, PasswordHash,
};
use crate::middleware::{
    bearer_header, lemma_session_token_authenticates, principal_of, Authenticated,
    AuthenticateMiddlewareFactory,
};
use crate::session::{
    self, create_at_result, keys_match, unix_now, ExpiryPolicy, SessionStore, CLOCK_BOUND,
};
use crate::claims::UserToken;
use crate::token_utils::{encodes, SigningKey};
use crate::user::{self, has_user_id, UserError, UserStore};
use crate::utils::{is_password_valid, meets_password_policy};

verus! {

/// Why a request failed.
#[derive(Clone, Copy, Debug, PartialEq, Eq, Structural)]
pub enum ServiceError {
    /// The password does not meet the password policy.
    WeakPassword,
    /// The username is already registered.
    UsernameTaken,
    /// Unknown username or wrong password; which one is not told.
    InvalidCredentials,
    /// The principal's user no longer exists.
    UserNotFound,
    /// Storing failed: a drawn id was taken, the clock was out of range, or
    /// the password could not be hashed.
    Storage,
}

/// A user's record as it is shown to clients: no password hash.
pub struct UserProfile {
    pub id: u128,
    pub username: String,
    pub created: i64,
    pub updated: i64,
}

/// The current user's record and sessions.
pub struct UserResponse {
    pub user: UserProfile,
    pub sessions: Vec<session::Model>,
}

impl UserProfile {
    /// The shown part of `u`.
    pub fn of(u: &user::Model) -> (r: UserProfile)
        ensures
            r.id == u.id,
            r.username@ == u.username@,
            r.created == u.created,
            r.updated == u.updated,
    {
        UserProfile { id: u.id, username: u.username.clone(), created: u.created, updated: u.updated }
    }
}

impl UserResponse {
    /// The response for user `u` with sessions `sessions`.
    pub fn new(u: &user::Model, sessions: Vec<session::Model>) -> (r: UserResponse)
        ensures
            r.user.id == u.id,
            r.user.username@ == u.username@,
            r.user.created == u.created,
            r.user.updated == u.updated,
            r.sessions@ == sessions@,
    {
        UserResponse { user: UserProfile::of(u), sessions }
    }
}

/// The effect of registering `username` with `password` under id `user_id`
/// at `now` on the user table `before`, giving `after` and the result `r`.
pub open spec fn signup_at_result(
    before: Map<Seq<char>, (u128, Seq<char>)>,
    after: Map<Seq<char>, (u128, Seq<char>)>,
    username: Seq<char>,
    password: Seq<char>,
    user_id: u128,
    now: i64,
    r: Result<UserProfile, ServiceError>,
) -> bool {
    if !meets_password_policy(password) {
        (r matches Err(e) && e == ServiceError::WeakPassword) && after == before
    } else if before.contains_key(username) {
        (r matches Err(e) && e == ServiceError::UsernameTaken) && after == before
    } else if has_user_id(before, user_id) {
        (r matches Err(e) && e == ServiceError::Storage) && after == before
    } else {
        &&& r matches Ok(p) && p.id == user_id && p.username@ == username && p.created == now
            && p.updated == now
        &&& exists|h: Seq<char>|
            verify_accepts(h, password) && is_argon2id_text(h) && after == before.insert(
                username,
                (user_id, h),
            )
    }
}

/// The effect of a login for `username` with `password` that would open session
/// `session_id` at `now`: users `users`, sessions `before` and `after`, signing
/// key `key`, result `r`.
pub open spec fn login_at_result(
    users: Map<Seq<char>, (u128, Seq<char>)>,
    before: Map<u128, session::Model>,
    after: Map<u128, session::Model>,
    key: Seq<u8>,
    username: Seq<char>,
    password: Seq<char>,
    session_id: u128,
    now: i64,
    r: Result<String, ServiceError>,
) -> bool {
    if !users.contains_key(username) || !verify_accepts(users[username].1, password) {
        (r matches Err(e) && e == ServiceError::InvalidCredentials) && after == before
    } else {
        exists|rs: Result<session::Model, session::SessionError>|
            create_at_result(before, after, session_id, users[username].0, now, rs) && match rs {
                Ok(s) => (r matches Ok(t) && encodes(key, s, t@)),
                Err(_) => (r matches Err(e) && e == ServiceError::Storage),
            }
    }
}

/// The effect of registering `username` with the prepared hash `hash` under id
/// `user_id` at `now` on the user table `before`, giving `after` and `r`.
pub open spec fn register_at_result(
    before: Map<Seq<char>, (u128, Seq<char>)>,
    after: Map<Seq<char>, (u128, Seq<char>)>,
    username: Seq<char>,
    hash: Seq<char>,
    user_id: u128,
    now: i64,
    r: Result<UserProfile, ServiceError>,
) -> bool {
    if before.contains_key(username) {
        (r matches Err(e) && e == ServiceError::UsernameTaken) && after == before
    } else if has_user_id(before, user_id) {
        (r matches Err(e) && e == ServiceError::Storage) && after == before
    } else {
        &&& r matches Ok(p) && p.id == user_id && p.username@ == username && p.created == now
            && p.updated == now
        &&& after == before.insert(username, (user_id, hash))
    }
}

/// The effect of completing a login for the proven user `user` (none if the
/// check failed) with session id `session_id` at `now`: sessions `before` and
/// `after`, signing key `key`, result `r`.
pub open spec fn finish_login_at_result(
    before: Map<u128, session::Model>,
    after: Map<u128, session::Model>,
    key: Seq<u8>,
    user: Option<u128>,
    session_id: u128,
    now: i64,
    r: Result<String, ServiceError>,
) -> bool {
    match user {
        None => (r matches Err(e) && e == ServiceError::InvalidCredentials) && after == before,
        Some(uid) => exists|rs: Result<session::Model, session::SessionError>|
            create_at_result(before, after, session_id, uid, now, rs) && match rs {
                Ok(s) => (r matches Ok(t) && encodes(key, s, t@)),
                Err(_) => (r matches Err(e) && e == ServiceError::Storage),
            },
    }
}

/// The outcome of checking a password against stored credentials: the user
/// it proves, if any. Only `check_login` makes one.
pub struct LoginCheck {
    user: Option<u128>,
}

impl LoginCheck {
    pub closed spec fn user(&self) -> Option<u128> {
        self.user
    }
}

/// Checks `password` against the credentials `creds` (user id and stored hash)
/// found for a username. Slow on purpose: it needs no access to the service.
pub fn check_login(creds: Option<(u128, PasswordHash)>, password: &str) -> (r: LoginCheck)
    ensures
        r.user() == match creds {
            Some((id, h)) => if verify_accepts(h@, password@) {
                Some(id)
            } else {
                None
            },
            None => None,
        },
{
    match creds {
        Some((id, h)) => {
            if verify_password(&h, password) {
                LoginCheck { user: Some(id) }
            } else {
                LoginCheck { user: None }
            }
        },
        None => LoginCheck { user: None },
    }
}

/// Checks `password` against the policy and hashes it. Slow on purpose: it
/// needs no access to the service.
pub fn prepare_password(password: &str, params: &HashParams) -> (r: Result<
    PasswordHash,
    ServiceError,
>)
    requires
        params.accepted(),
    ensures
        r is Ok <==> meets_password_policy(password@),
        r matches Err(e) ==> e == ServiceError::WeakPassword,
        r matches Ok(h) ==> verify_accepts(h@, password@) && is_argon2id_text(h@),
{
    if !is_password_valid(password) {
        return Err(ServiceError::WeakPassword);
    }
    match hash_password(password, params) {
        Ok(h) => Ok(h),
        Err(_) => Err(ServiceError::Storage),
    }
}

/// Users, sessions and the authentication configuration.
pub struct AuthService {
    users: UserStore,
    sessions: SessionStore,
    auth: AuthenticateMiddlewareFactory,
    params: HashParams,
}

impl AuthService {
    pub closed spec fn wf(&self) -> bool {
        self.users.wf() && self.sessions.wf() && self.params.accepted()
    }

    /// The registered users, by username: id and password hash.
    pub closed spec fn users(&self) -> Map<Seq<char>, (u128, Seq<char>)> {
        self.users@
    }

    /// The live sessions, by session id.
    pub closed spec fn sessions(&self) -> Map<u128, session::Model> {
        self.sessions@
    }

    pub closed spec fn key(&self) -> Seq<u8> {
        self.auth.key()@
    }

    pub closed spec fn policy(&self) -> ExpiryPolicy {
        self.auth.policy()
    }

    /// The live sessions are each stored under their own id.
    pub proof fn lemma_sessions_keyed(&self)
        requires
            self.wf(),
        ensures
            keys_match(self.sessions()),
    {
        self.sessions.lemma_keys_match();
    }

    /// An empty service.
    pub fn new(key: SigningKey, policy: ExpiryPolicy, params: HashParams) -> (r: AuthService)
        requires
            params.accepted(),
        ensures
            r.wf(),
            r.users() == Map::<Seq<char>, (u128, Seq<char>)>::empty(),
            r.sessions() == Map::<u128, session::Model>::empty(),
            r.key() == key@,
            r.policy() == policy,
    {
        AuthService {
            users: UserStore::new(),
            sessions: SessionStore::new(),
            auth: AuthenticateMiddlewareFactory::new(key, policy),
            params,
        }
    }

    /// Registers `username` with `password` under id `user_id` at time `now`.
    pub fn signup_at(&mut self, username: String, password: &str, user_id: u128, now: i64) -> (r:
        Result<UserProfile, ServiceError>)
        requires
            old(self).wf(),
        ensures
            final(self).wf(),
            final(self).key() == old(self).key(),
            final(self).policy() == old(self).policy(),
            final(self).sessions() == old(self).sessions(),
            signup_at_result(
                old(self).users(),
                final(self).users(),
                username@,
                password@,
                user_id,
                now,
                r,
            ),
    {
        if !is_password_valid(password) {
            return Err(ServiceError::WeakPassword);
        }
        if self.users.find_by_username(username.as_str()).is_some() {
            return Err(ServiceError::UsernameTaken);
        }
        if self.users.find_by_id(user_id).is_some() {
            return Err(ServiceError::Storage);
        }
        let hash = match hash_password(password, &self.params) {
            Ok(h) => h,
            Err(_) => {
                return Err(ServiceError::Storage);
            },
        };
        let u = user::Model::new(user_id, username, hash, now);
        let profile = UserProfile::of(&u);
        match self.users.insert(u) {
            Ok(()) => Ok(profile),
            Err(UserError::UsernameTaken) => Err(ServiceError::UsernameTaken),
            Err(UserError::DuplicateId) => Err(ServiceError::Storage),
        }
    }

    /// The hashing parameters.
    pub fn params(&self) -> (r: HashParams)
        requires
            self.wf(),
        ensures
            r.accepted(),
    {
        self.params
    }

    /// Registers `username` with an already prepared password hash under id
    /// `user_id` at time `now`.
    pub fn register_at(&mut self, username: String, hash: PasswordHash, user_id: u128, now: i64) -> (r:
        Result<UserProfile, ServiceError>)
        requires
            old(self).wf(),
        ensures
            final(self).wf(),
            final(self).key() == old(self).key(),
            final(self).policy() == old(self).policy(),
            final(self).sessions() == old(self).sessions(),
            register_at_result(
                old(self).users(),
                final(self).users(),
                username@,
                hash@,
                user_id,
                now,
                r,
            ),
    {
        let u = user::Model::new(user_id, username, hash, now);
        let profile = UserProfile::of(&u);
        match self.users.insert(u) {
            Ok(()) => Ok(profile),
            Err(UserError::UsernameTaken) => Err(ServiceError::UsernameTaken),
            Err(UserError::DuplicateId) => Err(ServiceError::Storage),
        }
    }

    /// Registers `username` with an already prepared password hash under a
    /// fresh random id, now.
    pub fn register(&mut self, username: String, hash: PasswordHash) -> (r: Result<
        UserProfile,
        ServiceError,
    >)
        requires
            old(self).wf(),
        ensures
            final(self).wf(),
            final(self).key() == old(self).key(),
            final(self).policy() == old(self).policy(),
            final(self).sessions() == old(self).sessions(),
            exists|user_id: u128, now: i64|
                register_at_result(
                    old(self).users(),
                    final(self).users(),
                    username@,
                    hash@,
                    user_id,
                    now,
                    r,
                ),
    {
        let user_id = rand::random::<u128>();
        let now = unix_now();
        self.register_at(username, hash, user_id, now)
    }

    /// The id and stored hash of the user named `username`.
    pub fn credentials(&self, username: &str) -> (r: Option<(u128, PasswordHash)>)
        requires
            self.wf(),
        ensures
            r is Some <==> self.users().contains_key(username@),
            r matches Some((id, h)) ==> self.users()[username@] == (id, h@),
    {
        match self.users.find_by_username(username) {
            Some(u) => Some((u.id, u.password.duplicate())),
            None => None,
        }
    }

    /// Completes a login that `check` decided: opens a session with id
    /// `session_id` issued at `now` for the proven user and returns its token.
    pub fn finish_login_at(&mut self, check: LoginCheck, session_id: u128, now: i64) -> (r: Result<
        String,
        ServiceError,
    >)
        requires
            old(self).wf(),
        ensures
            final(self).wf(),
            final(self).key() == old(self).key(),
            final(self).policy() == old(self).policy(),
            final(self).users() == old(self).users(),
            finish_login_at_result(
                old(self).sessions(),
                final(self).sessions(),
                old(self).key(),
                check.user(),
                session_id,
                now,
                r,
            ),
    {
        let uid = match check.user {
            Some(uid) => uid,
            None => {
                return Err(ServiceError::InvalidCredentials);
            },
        };
        let rs = self.sessions.create_at(uid, session_id, now);
        let r = match rs {
            Ok(s) => {
                let t = UserToken::generate(&s, self.auth.signing_key());
                assert(encodes(self.key(), s, t@));
                Ok(t)
            },
            Err(_) => Err(ServiceError::Storage),
        };
        assert(create_at_result(old(self).sessions(), self.sessions(), session_id, uid, now, rs));
        r
    }

    /// Completes a login that `check` decided, with a fresh random session id,
    /// issued now.
    pub fn finish_login(&mut self, check: LoginCheck) -> (r: Result<String, ServiceError>)
        requires
            old(self).wf(),
        ensures
            final(self).wf(),
            final(self).key() == old(self).key(),
            final(self).policy() == old(self).policy(),
            final(self).users() == old(self).users(),
            exists|session_id: u128, now: i64|
                -CLOCK_BOUND <= now <= CLOCK_BOUND && finish_login_at_result(
                    old(self).sessions(),
                    final(self).sessions(),
                    old(self).key(),
                    check.user(),
                    session_id,
                    now,
                    r,
                ),
    {
        let session_id = rand::random::<u128>();
        let now = unix_now();
        self.finish_login_at(check, session_id, now)
    }

    /// Registers `username` with `password` under a fresh random id, now.
    pub fn signup(&mut self, username: String, password: &str) -> (r: Result<
        UserProfile,
        ServiceError,
    >)
        requires
            old(self).wf(),
        ensures
            final(self).wf(),
            final(self).key() == old(self).key(),
            final(self).policy() == old(self).policy(),
            final(self).sessions() == old(self).sessions(),
            exists|user_id: u128, now: i64|
                signup_at_result(
                    old(self).users(),
                    final(self).users(),
                    username@,
                    password@,
                    user_id,
                    now,
                    r,
                ),
    {
        let user_id = rand::random::<u128>();
        let now = unix_now();
        self.signup_at(username, password, user_id, now)
    }

    /// Checks the credentials and, if they hold, opens a session with id
    /// `session_id` issued at `now` and returns its token.
    pub fn login_at(&mut self, username: &str, password: &str, session_id: u128, now: i64) -> (r:
        Result<String, ServiceError>)
        requires
            old(self).wf(),
        ensures
            final(self).wf(),
            final(self).key() == old(self).key(),
            final(self).policy() == old(self).policy(),
            final(self).users() == old(self).users(),
            login_at_result(
                old(self).users(),
                old(self).sessions(),
                final(self).sessions(),
                old(self).key(),
                username@,
                password@,
                session_id,
                now,
                r,
            ),
    {
        let (uid, ok) = match self.users.find_by_username(username) {
            Some(u) => (u.id, u.verify_password(password)),
            None => {
                return Err(ServiceError::InvalidCredentials);
            },
        };
        if !ok {
            return Err(ServiceError::InvalidCredentials);
        }
        let rs = self.sessions.create_at(uid, session_id, now);
        let r = match rs {
            Ok(s) => {
                let t = UserToken::generate(&s, self.auth.signing_key());
                assert(encodes(self.key(), s, t@));
                Ok(t)
            },
            Err(_) => Err(ServiceError::Storage),
        };
        assert(uid == old(self).users()[username@].0);
        assert(create_at_result(old(self).sessions(), self.sessions(), session_id, uid, now, rs));
        r
    }

    /// Checks the credentials and, if they hold, opens a session with a fresh
    /// random id, issued now, and returns its token.
    pub fn login(&mut self, username: &str, password: &str) -> (r: Result<String, ServiceError>)
        requires
            old(self).wf(),
        ensures
            final(self).wf(),
            final(self).key() == old(self).key(),
            final(self).policy() == old(self).policy(),
            final(self).users() == old(self).users(),
            exists|session_id: u128, now: i64|
                -CLOCK_BOUND <= now <= CLOCK_BOUND && login_at_result(
                    old(self).users(),
                    old(self).sessions(),
                    final(self).sessions(),
                    old(self).key(),
                    username@,
                    password@,
                    session_id,
                    now,
                    r,
                ),
    {
        let session_id = rand::random::<u128>();
        let now = unix_now();
        self.login_at(username, password, session_id, now)
    }

    /// The principal of a request with `Authorization` header `header` at `now`.
    pub fn authenticate(&self, header: Option<&str>, now: i64) -> (r: Option<session::Model>)
        requires
            self.wf(),
        ensures
            r == principal_of(
                match header {
                    Some(h) => Some(h@),
                    None => None,
                },
                self.key(),
                self.sessions(),
                now,
                self.policy(),
            ),
    {
        self.auth.new_transform().call(header, &self.sessions, now)
    }

    /// Ends the principal's session; succeeds whether or not it still existed.
    pub fn logout(&mut self, principal: &Authenticated)
        requires
            old(self).wf(),
        ensures
            final(self).wf(),
            final(self).users() == old(self).users(),
            final(self).key() == old(self).key(),
            final(self).policy() == old(self).policy(),
            final(self).sessions() == old(self).sessions().remove(principal.0.session_id),
    {
        let _ = self.sessions.revoke(principal.0.session_id);
    }

    /// The principal's user record and live sessions.
    pub fn get_user(&self, principal: &Authenticated) -> (r: Result<UserResponse, ServiceError>)
        requires
            self.wf(),
        ensures
            r is Ok <==> has_user_id(self.users(), principal.0.user_id),
            r matches Err(e) ==> e == ServiceError::UserNotFound,
            r matches Ok(resp) ==> resp.user.id == principal.0.user_id && self.users().contains_key(
                resp.user.username@,
            ) && self.users()[resp.user.username@].0 == principal.0.user_id,
            r matches Ok(resp) ==> (forall|j: int|
                0 <= j < resp.sessions@.len() ==> #[trigger] self.sessions().contains_key(
                    resp.sessions@[j].session_id,
                ) && self.sessions()[resp.sessions@[j].session_id] == resp.sessions@[j]
                    && resp.sessions@[j].user_id == principal.0.user_id),
            r matches Ok(resp) ==> (forall|k: u128|
                #[trigger] self.sessions().contains_key(k) && self.sessions()[k].user_id
                    == principal.0.user_id ==> exists|j: int|
                    0 <= j < resp.sessions@.len() && resp.sessions@[j].session_id == k),
    {
        match self.users.find_by_id(principal.0.user_id) {
            Some(u) => Ok(UserResponse::new(u, self.sessions.sessions_of(principal.0.user_id))),
            None => Err(ServiceError::UserNotFound),
        }
    }
}

/// A successful signup stores a hash, never the password itself (unless the
/// password starts with `$argon2id$v=19$`).
pub proof fn lemma_signup_stores_hash(
    before: Map<Seq<char>, (u128, Seq<char>)>,
    after: Map<Seq<char>, (u128, Seq<char>)>,
    username: Seq<char>,
    password: Seq<char>,
    user_id: u128,
    now: i64,
    r: Result<UserProfile, ServiceError>,
)
    requires
        signup_at_result(before, after, username, password, user_id, now, r),
        r is Ok,
        !is_argon2id_text(password),
    ensures
        after.contains_key(username),
        after[username].0 == user_id,
        after[username].1 != password,
        verify_accepts(after[username].1, password),
{
    let h = choose|h: Seq<char>|
        verify_accepts(h, password) && is_argon2id_text(h) && after == before.insert(
            username,
            (user_id, h),
        );
    assert(after[username] == (user_id, h));
}

/// The token of a successful login, sent as `Bearer ` and the token, gives the
/// new session as principal while expiry is ignored.
pub proof fn lemma_login_token_authenticates(
    users: Map<Seq<char>, (u128, Seq<char>)>,
    before: Map<u128, session::Model>,
    after: Map<u128, session::Model>,
    key: Seq<u8>,
    username: Seq<char>,
    password: Seq<char>,
    session_id: u128,
    now: i64,
    r: Result<String, ServiceError>,
    later: i64,
)
    requires
        login_at_result(users, before, after, key, username, password, session_id, now, r),
        r is Ok,
    ensures
        principal_of(Some(bearer_header(r->Ok_0@)), key, after, later, ExpiryPolicy::Ignore) matches Some(
            m,
        ) && m.session_id == session_id && m.user_id == users[username].0,
{
    let rs = choose|rs: Result<session::Model, session::SessionError>|
        create_at_result(before, after, session_id, users[username].0, now, rs) && match rs {
            Ok(s) => (r matches Ok(t) && encodes(key, s, t@)),
            Err(_) => (r matches Err(e) && e == ServiceError::Storage),
        };
    let s = rs->Ok_0;
    assert(after.contains_key(s.session_id));
    lemma_session_token_authenticates(key, after, s, r->Ok_0@, later, ExpiryPolicy::Ignore);
}

} // verus!
