//! User records and the table that holds them.

use vstd::prelude::*;
use crate::credential::{verify_accepts, verify_password, PasswordHash};
use crate::session::{self, create_result, validate_spec, SessionError, SessionStore};

verus! {

/// A user: unique id, unique username, password hash and timestamps.
pub struct Model {
    /// Random 128-bit identifier.
    pub id: u128,
    /// Unique login name.
    pub username: String,
    /// The password hash; it is never sent to clients.
    pub password: PasswordHash,
    /// Created at, in seconds since the Unix epoch.
    pub created: i64,
    /// Last updated at, in seconds since the Unix epoch.
    pub updated: i64,
}

impl Model {
    /// The stored password hash.
    pub open spec fn password_hash(&self) -> Seq<char> {
        self.password@
    }

    /// A new user created at `now`.
    pub fn new(id: u128, username: String, password: PasswordHash, now: i64) -> (r: Model)
        ensures
            r.id == id,
            r.username@ == username@,
            r.password_hash() == password@,
            r.created == now,
            r.updated == now,
    {
        Model { id, username, password, created: now, updated: now }
    }

    /// The stored password hash.
    pub fn password(&self) -> (r: &PasswordHash)
        ensures
            r@ == self.password_hash(),
    {
        &self.password
    }

    /// Whether `password` matches the stored hash.
    pub fn verify_password(&self, password: &str) -> (r: bool)
        ensures
            r == verify_accepts(self.password_hash(), password@),
    {
        verify_password(&self.password, password)
    }

    /// The stored session that `token` names, provided it belongs to the user
    /// that `token` names.
    pub fn validate_login_session(token: &session::Model, sessions: &SessionStore) -> (r: Result<
        session::Model,
        SessionError,
    >)
        requires
            sessions.wf(),
        ensures
            r == validate_spec(sessions@, token.session_id, token.user_id),
    {
        sessions.validate(token.session_id, token.user_id)
    }

    /// Opens a new session for this user.
    pub fn new_login_session(&self, sessions: &mut SessionStore) -> (r: Result<
        session::Model,
        SessionError,
    >)
        requires
            old(sessions).wf(),
        ensures
            final(sessions).wf(),
            create_result(old(sessions)@, final(sessions)@, self.id, r),
    {
        sessions.create(self.id)
    }
}

/// A username together with the token of one of its sessions.
pub struct LoginInfoDTO {
    pub username: String,
    pub login_session: String,
}

/// Why a user could not be stored.
#[derive(Clone, Copy, Debug, PartialEq, Eq, Structural)]
pub enum UserError {
    /// Another user has this username.
    UsernameTaken,
    /// Another user has this id.
    DuplicateId,
}

/// The users of `rows`, keyed by username: id and password hash.
pub open spec fn user_table(rows: Seq<Model>) -> Map<Seq<char>, (u128, Seq<char>)> {
    Map::new(
        |k: Seq<char>| exists|i: int| 0 <= i < rows.len() && rows[i].username@ == k,
        |k: Seq<char>|
            {
                let i = choose|i: int| 0 <= i < rows.len() && rows[i].username@ == k;
                (rows[i].id, rows[i].password_hash())
            },
    )
}

/// No two rows share a username or an id.
pub open spec fn users_unique(rows: Seq<Model>) -> bool {
    forall|i: int, j: int|
        0 <= i < rows.len() && 0 <= j < rows.len() && i != j ==> rows[i].username@
            != rows[j].username@ && rows[i].id != rows[j].id
}

/// Whether some user in `t` has id `id`.
pub open spec fn has_user_id(t: Map<Seq<char>, (u128, Seq<char>)>, id: u128) -> bool {
    exists|k: Seq<char>| t.contains_key(k) && t[k].0 == id
}

proof fn lemma_user_at(rows: Seq<Model>, i: int)
    requires
        users_unique(rows),
        0 <= i < rows.len(),
    ensures
        user_table(rows).contains_key(rows[i].username@),
        user_table(rows)[rows[i].username@] == (rows[i].id, rows[i].password_hash()),
{
    let k = rows[i].username@;
    assert(user_table(rows).contains_key(k));
    let j = choose|j: int| 0 <= j < rows.len() && rows[j].username@ == k;
    assert(j == i);
}

proof fn lemma_user_push(rows: Seq<Model>, m: Model)
    requires
        users_unique(rows),
        !user_table(rows).contains_key(m.username@),
        !has_user_id(user_table(rows), m.id),
    ensures
        users_unique(rows.push(m)),
        user_table(rows.push(m)) == user_table(rows).insert(m.username@, (m.id, m.password_hash())),
{
    let new_rows = rows.push(m);
    assert forall|i: int| 0 <= i < rows.len() implies rows[i].username@ != m.username@ && rows[i].id
        != m.id by {
        if rows[i].username@ == m.username@ {
            assert(user_table(rows).contains_key(m.username@));
        }
        if rows[i].id == m.id {
            lemma_user_at(rows, i);
            assert(user_table(rows).contains_key(rows[i].username@));
        }
    }
    assert(users_unique(new_rows));
    let t1 = user_table(new_rows);
    let t2 = user_table(rows).insert(m.username@, (m.id, m.password_hash()));
    assert forall|k: Seq<char>| t1.contains_key(k) <==> t2.contains_key(k) by {
        if t2.contains_key(k) && k != m.username@ {
            let i = choose|i: int| 0 <= i < rows.len() && rows[i].username@ == k;
            assert(new_rows[i].username@ == k);
        }
        if k == m.username@ {
            assert(new_rows[rows.len() as int].username@ == k);
        }
    }
    assert forall|k: Seq<char>| t1.contains_key(k) implies t1[k] == t2[k] by {
        let i = choose|i: int| 0 <= i < new_rows.len() && new_rows[i].username@ == k;
        lemma_user_at(new_rows, i);
        if i < rows.len() {
            lemma_user_at(rows, i);
        }
    }
    assert(t1 =~= t2);
}

/// The registered users.
pub struct UserStore {
    rows: Vec<Model>,
}

impl View for UserStore {
    type V = Map<Seq<char>, (u128, Seq<char>)>;

    closed spec fn view(&self) -> Map<Seq<char>, (u128, Seq<char>)> {
        user_table(self.rows@)
    }
}

impl UserStore {
    /// Well-formedness: usernames and ids are unique.
    pub closed spec fn wf(&self) -> bool {
        users_unique(self.rows@)
    }

    /// An empty store.
    pub fn new() -> (r: UserStore)
        ensures
            r.wf(),
            r@ == Map::<Seq<char>, (u128, Seq<char>)>::empty(),
    {
        let r = UserStore { rows: Vec::new() };
        assert(r@ =~= Map::<Seq<char>, (u128, Seq<char>)>::empty());
        r
    }

    /// The user named `name`.
    pub fn find_by_username(&self, name: &str) -> (r: Option<&Model>)
        requires
            self.wf(),
        ensures
            r is Some <==> self@.contains_key(name@),
            r matches Some(m) ==> m.username@ == name@ && self@[name@] == (
                m.id,
                m.password_hash(),
            ),
    {
        let owned = name.to_owned();
        let mut i: usize = 0;
        while i < self.rows.len()
            invariant
                i <= self.rows@.len(),
                users_unique(self.rows@),
                owned@ == name@,
                forall|j: int| 0 <= j < i ==> self.rows@[j].username@ != name@,
            decreases self.rows@.len() - i,
        {
            if self.rows[i].username == owned {
                proof {
                    lemma_user_at(self.rows@, i as int);
                }
                return Some(&self.rows[i]);
            }
            i = i + 1;
        }
        proof {
            if self@.contains_key(name@) {
                let j = choose|j: int| 0 <= j < self.rows@.len() && self.rows@[j].username@ == name@;
                assert(self.rows@[j].username@ == name@);
            }
        }
        None
    }

    /// The user with id `id`.
    pub fn find_by_id(&self, id: u128) -> (r: Option<&Model>)
        requires
            self.wf(),
        ensures
            r is Some <==> has_user_id(self@, id),
            r matches Some(m) ==> m.id == id && self@.contains_key(m.username@) && self@[m.username@]
                == (m.id, m.password_hash()),
    {
        let mut i: usize = 0;
        while i < self.rows.len()
            invariant
                i <= self.rows@.len(),
                users_unique(self.rows@),
                forall|j: int| 0 <= j < i ==> self.rows@[j].id != id,
            decreases self.rows@.len() - i,
        {
            if self.rows[i].id == id {
                proof {
                    lemma_user_at(self.rows@, i as int);
                }
                return Some(&self.rows[i]);
            }
            i = i + 1;
        }
        proof {
            if has_user_id(self@, id) {
                let k = choose|k: Seq<char>| self@.contains_key(k) && self@[k].0 == id;
                let j = choose|j: int| 0 <= j < self.rows@.len() && self.rows@[j].username@ == k;
                lemma_user_at(self.rows@, j);
            }
        }
        None
    }

    /// Stores `m`, unless its username or its id is taken.
    pub fn insert(&mut self, m: Model) -> (r: Result<(), UserError>)
        requires
            old(self).wf(),
        ensures
            final(self).wf(),
            old(self)@.contains_key(m.username@) ==> r == Err::<(), UserError>(
                UserError::UsernameTaken,
            ),
            !old(self)@.contains_key(m.username@) && has_user_id(old(self)@, m.id) ==> r == Err::<
                (),
                UserError,
            >(UserError::DuplicateId),
            r is Err ==> final(self)@ == old(self)@,
            r is Ok <==> !old(self)@.contains_key(m.username@) && !has_user_id(old(self)@, m.id),
            r is Ok ==> final(self)@ == old(self)@.insert(m.username@, (m.id, m.password_hash())),
    {
        if self.find_by_username(m.username.as_str()).is_some() {
            return Err(UserError::UsernameTaken);
        }
        if self.find_by_id(m.id).is_some() {
            return Err(UserError::DuplicateId);
        }
        proof {
            lemma_user_push(self.rows@, m);
        }
        self.rows.push(m);
        Ok(())
    }
}

} // verus!
