//! Session records and the table that holds the live ones.

use vstd::prelude::*;

verus! {

/// Bound on the clock's reading, in seconds either side of the Unix epoch.
pub const CLOCK_BOUND: i64 = 0x4_0000_0000_0000;

/// Seconds in one week: how long after issue a session's recorded expiry lies.
pub const ONE_WEEK: i64 = 604800;

/// A server-held session: the only source of truth for revocation.
#[derive(Clone, Copy, Debug, PartialEq, Eq, Structural)]
pub struct Model {
    /// Random 128-bit identifier, unique among stored sessions.
    pub session_id: u128,
    /// The user who owns the session.
    pub user_id: u128,
    /// Issued at, in seconds since the Unix epoch.
    pub iat: i64,
    /// Recorded expiry, in seconds since the Unix epoch.
    pub exp: i64,
}

impl Model {
    /// A session issued at `now` carries these fields.
    pub open spec fn issued(session_id: u128, user_id: u128, now: i64) -> Model {
        Model { session_id, user_id, iat: now, exp: (now + ONE_WEEK) as i64 }
    }

    /// Whether `now` is at or past the recorded expiry.
    pub open spec fn expired_at(&self, now: i64) -> bool {
        self.exp <= now
    }

    /// The record of a session issued at `now`; `None` where the expiry would
    /// not fit in an `i64`.
    pub fn issue(session_id: u128, user_id: u128, now: i64) -> (r: Option<Model>)
        ensures
            r is Some <==> now + ONE_WEEK <= i64::MAX,
            r matches Some(m) ==> m == Model::issued(session_id, user_id, now),
    {
        if now <= i64::MAX - ONE_WEEK {
            Some(Model { session_id, user_id, iat: now, exp: now + ONE_WEEK })
        } else {
            None
        }
    }

    /// Whether `now` is at or past the recorded expiry.
    pub fn is_expired(&self, now: i64) -> (r: bool)
        ensures
            r == self.expired_at(now),
    {
        self.exp <= now
    }
}

/// Why a session operation did not succeed.
#[derive(Clone, Copy, Debug, PartialEq, Eq, Structural)]
pub enum SessionError {
    /// No stored session matches.
    NotFound,
    /// The drawn session id is already taken.
    DuplicateId,
    /// The clock reads so late that the expiry cannot be represented.
    ClockOutOfRange,
}

/// Whether expiry is checked when a session is validated.
#[derive(Clone, Copy, Debug, PartialEq, Eq, Structural)]
pub enum ExpiryPolicy {
    /// A session stays valid until it is revoked, whatever its expiry.
    Ignore,
    /// A session past its expiry is treated as absent.
    Enforce,
}

/// The sessions of `rows`, keyed by session id.
pub open spec fn table(rows: Seq<Model>) -> Map<u128, Model> {
    Map::new(
        |k: u128| exists|i: int| 0 <= i < rows.len() && rows[i].session_id == k,
        |k: u128| rows[choose|i: int| 0 <= i < rows.len() && rows[i].session_id == k],
    )
}

/// No two rows share a session id.
pub open spec fn ids_unique(rows: Seq<Model>) -> bool {
    forall|i: int, j: int|
        0 <= i < rows.len() && 0 <= j < rows.len() && i != j ==> rows[i].session_id
            != rows[j].session_id
}

/// Every session in `t` is stored under its own session id.
pub open spec fn keys_match(t: Map<u128, Model>) -> bool {
    forall|k: u128| #[trigger] t.contains_key(k) ==> t[k].session_id == k
}

/// What validating the pair (`session_id`, `user_id`) gives against the table `t`.
pub open spec fn validate_spec(t: Map<u128, Model>, session_id: u128, user_id: u128) -> Result<
    Model,
    SessionError,
> {
    if t.contains_key(session_id) && t[session_id].user_id == user_id {
        Ok(t[session_id])
    } else {
        Err(SessionError::NotFound)
    }
}

/// What validating under `policy` at time `now` gives against the table `t`.
pub open spec fn validate_at_spec(
    t: Map<u128, Model>,
    session_id: u128,
    user_id: u128,
    now: i64,
    policy: ExpiryPolicy,
) -> Result<Model, SessionError> {
    match validate_spec(t, session_id, user_id) {
        Ok(m) => if policy == ExpiryPolicy::Enforce && m.expired_at(now) {
            Err(SessionError::NotFound)
        } else {
            Ok(m)
        },
        Err(e) => Err(e),
    }
}

/// The effect of creating a session for `user_id` with id `session_id` at
/// `now`: the table before, the table after, and the result.
pub open spec fn create_at_result(
    before: Map<u128, Model>,
    after: Map<u128, Model>,
    session_id: u128,
    user_id: u128,
    now: i64,
    r: Result<Model, SessionError>,
) -> bool {
    if now + ONE_WEEK > i64::MAX {
        r == Err::<Model, SessionError>(SessionError::ClockOutOfRange) && after == before
    } else if before.contains_key(session_id) {
        r == Err::<Model, SessionError>(SessionError::DuplicateId) && after == before
    } else {
        r == Ok::<Model, SessionError>(Model::issued(session_id, user_id, now))
            && after == before.insert(session_id, Model::issued(session_id, user_id, now))
    }
}

/// The effect of creating a session for `user_id` with an id and a time that
/// the store draws itself.
pub open spec fn create_result(
    before: Map<u128, Model>,
    after: Map<u128, Model>,
    user_id: u128,
    r: Result<Model, SessionError>,
) -> bool {
    exists|session_id: u128, now: i64|
        -CLOCK_BOUND <= now <= CLOCK_BOUND && create_at_result(
            before,
            after,
            session_id,
            user_id,
            now,
            r,
        )
}

/// The live sessions.
pub struct SessionStore {
    rows: Vec<Model>,
}

impl View for SessionStore {
    type V = Map<u128, Model>;

    closed spec fn view(&self) -> Map<u128, Model> {
        table(self.rows@)
    }
}

proof fn lemma_table_at(rows: Seq<Model>, i: int)
    requires
        ids_unique(rows),
        0 <= i < rows.len(),
    ensures
        table(rows).contains_key(rows[i].session_id),
        table(rows)[rows[i].session_id] == rows[i],
{
    let k = rows[i].session_id;
    assert(table(rows).contains_key(k));
    let j = choose|j: int| 0 <= j < rows.len() && rows[j].session_id == k;
    assert(table(rows)[k] == rows[j]);
}

proof fn lemma_table_push(rows: Seq<Model>, m: Model)
    requires
        ids_unique(rows),
        !table(rows).contains_key(m.session_id),
    ensures
        ids_unique(rows.push(m)),
        table(rows.push(m)) == table(rows).insert(m.session_id, m),
{
    let new_rows = rows.push(m);
    assert(forall|i: int| 0 <= i < rows.len() ==> rows[i].session_id != m.session_id) by {
        assert forall|i: int| 0 <= i < rows.len() implies rows[i].session_id != m.session_id by {
            if rows[i].session_id == m.session_id {
                assert(table(rows).contains_key(m.session_id));
            }
        }
    }
    assert(ids_unique(new_rows));
    let t1 = table(new_rows);
    let t2 = table(rows).insert(m.session_id, m);
    assert forall|k: u128| t1.contains_key(k) <==> t2.contains_key(k) by {
        if t2.contains_key(k) && k != m.session_id {
            let i = choose|i: int| 0 <= i < rows.len() && rows[i].session_id == k;
            assert(new_rows[i].session_id == k);
        }
        if k == m.session_id {
            assert(new_rows[rows.len() as int].session_id == k);
        }
    }
    assert forall|k: u128| t1.contains_key(k) implies t1[k] == t2[k] by {
        let i = choose|i: int| 0 <= i < new_rows.len() && new_rows[i].session_id == k;
        lemma_table_at(new_rows, i);
        if i < rows.len() {
            lemma_table_at(rows, i);
        }
    }
    assert(t1 =~= t2);
}

proof fn lemma_table_remove(rows: Seq<Model>, i: int)
    requires
        ids_unique(rows),
        0 <= i < rows.len(),
    ensures
        ids_unique(rows.remove(i)),
        table(rows.remove(i)) == table(rows).remove(rows[i].session_id),
{
    let new_rows = rows.remove(i);
    let sid = rows[i].session_id;
    assert forall|a: int, b: int|
        0 <= a < new_rows.len() && 0 <= b < new_rows.len() && a != b implies new_rows[a].session_id
        != new_rows[b].session_id by {
        let a2 = if a < i { a } else { a + 1 };
        let b2 = if b < i { b } else { b + 1 };
        assert(new_rows[a] == rows[a2]);
        assert(new_rows[b] == rows[b2]);
    }
    let t1 = table(new_rows);
    let t2 = table(rows).remove(sid);
    assert forall|k: u128| t1.contains_key(k) <==> t2.contains_key(k) by {
        if t1.contains_key(k) {
            let a = choose|a: int| 0 <= a < new_rows.len() && new_rows[a].session_id == k;
            let a2 = if a < i { a } else { a + 1 };
            assert(new_rows[a] == rows[a2]);
            assert(rows[a2].session_id == k);
        }
        if t2.contains_key(k) {
            let a = choose|a: int| 0 <= a < rows.len() && rows[a].session_id == k;
            assert(a != i);
            let a1 = if a < i { a } else { a - 1 };
            assert(new_rows[a1] == rows[a]);
        }
    }
    assert forall|k: u128| t1.contains_key(k) implies t1[k] == t2[k] by {
        let a = choose|a: int| 0 <= a < new_rows.len() && new_rows[a].session_id == k;
        let a2 = if a < i { a } else { a + 1 };
        assert(new_rows[a] == rows[a2]);
        lemma_table_at(new_rows, a);
        lemma_table_at(rows, a2);
    }
    assert(t1 =~= t2);
}

/// Relies on chrono's conversion of `std::time::SystemTime::now()` into a
/// `DateTime<Utc>`: the current time in whole seconds since the Unix epoch,
/// negative before it. Its value is only known to lie in chrono's range of
/// years (within 262,143 of year 0), well inside 2^50 seconds of the epoch.
#[verifier::external_body]
pub(crate) fn unix_now() -> (r: i64)
    ensures
        -CLOCK_BOUND <= r <= CLOCK_BOUND,
{
    chrono::DateTime::<chrono::Utc>::from(std::time::SystemTime::now()).timestamp()
}

impl SessionStore {
    /// Well-formedness: session ids are unique.
    pub closed spec fn wf(&self) -> bool {
        ids_unique(self.rows@)
    }

    /// A well-formed store keeps every session under its own id.
    pub proof fn lemma_keys_match(&self)
        requires
            self.wf(),
        ensures
            keys_match(self@),
    {
        assert forall|k: u128| #[trigger] self@.contains_key(k) implies self@[k].session_id == k by {
            let i = choose|i: int| 0 <= i < self.rows@.len() && self.rows@[i].session_id == k;
            lemma_table_at(self.rows@, i);
        }
    }

    /// An empty store.
    pub fn new() -> (r: SessionStore)
        ensures
            r.wf(),
            r@ == Map::<u128, Model>::empty(),
    {
        let r = SessionStore { rows: Vec::new() };
        assert(r@ =~= Map::<u128, Model>::empty());
        r
    }

    /// Index of the row with `session_id`, if any.
    fn position(&self, session_id: u128) -> (r: Option<usize>)
        requires
            self.wf(),
        ensures
            r is Some <==> self@.contains_key(session_id),
            r matches Some(i) ==> i < self.rows@.len() && self.rows@[i as int].session_id
                == session_id,
    {
        let mut i: usize = 0;
        while i < self.rows.len()
            invariant
                i <= self.rows@.len(),
                forall|j: int| 0 <= j < i ==> self.rows@[j].session_id != session_id,
            decreases self.rows@.len() - i,
        {
            if self.rows[i].session_id == session_id {
                return Some(i);
            }
            i = i + 1;
        }
        proof {
            if self@.contains_key(session_id) {
                let j = choose|j: int|
                    0 <= j < self.rows@.len() && self.rows@[j].session_id == session_id;
                assert(self.rows@[j].session_id == session_id);
            }
        }
        None
    }

    /// Stores `m`, unless its session id is taken.
    pub fn insert(&mut self, m: Model) -> (r: Result<(), SessionError>)
        requires
            old(self).wf(),
        ensures
            final(self).wf(),
            r is Err <==> old(self)@.contains_key(m.session_id),
            r matches Err(e) ==> e == SessionError::DuplicateId && final(self)@ == old(self)@,
            r is Ok ==> final(self)@ == old(self)@.insert(m.session_id, m),
    {
        match self.position(m.session_id) {
            Some(_) => Err(SessionError::DuplicateId),
            None => {
                proof {
                    lemma_table_push(self.rows@, m);
                }
                self.rows.push(m);
                Ok(())
            }
        }
    }

    /// Creates a session for `user_id` with the given id, issued at `now`.
    pub fn create_at(&mut self, user_id: u128, session_id: u128, now: i64) -> (r: Result<
        Model,
        SessionError,
    >)
        requires
            old(self).wf(),
        ensures
            final(self).wf(),
            create_at_result(old(self)@, final(self)@, session_id, user_id, now, r),
    {
        match Model::issue(session_id, user_id, now) {
            None => Err(SessionError::ClockOutOfRange),
            Some(m) => match self.insert(m) {
                Ok(()) => Ok(m),
                Err(e) => Err(e),
            },
        }
    }

    /// Creates a session for `user_id` with a fresh random id, issued now.
    pub fn create(&mut self, user_id: u128) -> (r: Result<Model, SessionError>)
        requires
            old(self).wf(),
        ensures
            final(self).wf(),
            create_result(old(self)@, final(self)@, user_id, r),
            r matches Err(e) ==> e == SessionError::DuplicateId,
    {
        let session_id = rand::random::<u128>();
        let now = unix_now();
        self.create_at(user_id, session_id, now)
    }

    /// The session with `session_id`, provided it belongs to `user_id`.
    pub fn validate(&self, session_id: u128, user_id: u128) -> (r: Result<Model, SessionError>)
        requires
            self.wf(),
        ensures
            r == validate_spec(self@, session_id, user_id),
            r matches Ok(m) ==> m.session_id == session_id && m.user_id == user_id,
    {
        match self.position(session_id) {
            Some(i) => {
                proof {
                    lemma_table_at(self.rows@, i as int);
                }
                let m = self.rows[i];
                if m.user_id == user_id {
                    Ok(m)
                } else {
                    Err(SessionError::NotFound)
                }
            },
            None => Err(SessionError::NotFound),
        }
    }

    /// As `validate`, and under `ExpiryPolicy::Enforce` a session at or past its
    /// expiry at `now` counts as absent.
    pub fn validate_at(&self, session_id: u128, user_id: u128, now: i64, policy: ExpiryPolicy) -> (r:
        Result<Model, SessionError>)
        requires
            self.wf(),
        ensures
            r == validate_at_spec(self@, session_id, user_id, now, policy),
            r matches Ok(m) ==> m.session_id == session_id && m.user_id == user_id,
    {
        match self.validate(session_id, user_id) {
            Ok(m) => {
                let enforce = match policy {
                    ExpiryPolicy::Enforce => true,
                    ExpiryPolicy::Ignore => false,
                };
                if enforce && m.is_expired(now) {
                    Err(SessionError::NotFound)
                } else {
                    Ok(m)
                }
            },
            Err(e) => Err(e),
        }
    }

    /// Deletes the session with `session_id`.
    pub fn revoke(&mut self, session_id: u128) -> (r: Result<(), SessionError>)
        requires
            old(self).wf(),
        ensures
            final(self).wf(),
            r is Ok <==> old(self)@.contains_key(session_id),
            r matches Err(e) ==> e == SessionError::NotFound,
            final(self)@ == old(self)@.remove(session_id),
    {
        match self.position(session_id) {
            Some(i) => {
                proof {
                    lemma_table_remove(self.rows@, i as int);
                }
                self.rows.remove(i);
                Ok(())
            },
            None => {
                assert(self@ =~= self@.remove(session_id));
                Err(SessionError::NotFound)
            },
        }
    }

    /// The stored sessions of `user_id`.
    pub fn sessions_of(&self, user_id: u128) -> (r: Vec<Model>)
        requires
            self.wf(),
        ensures
            forall|j: int|
                0 <= j < r@.len() ==> #[trigger] self@.contains_key(r@[j].session_id)
                    && self@[r@[j].session_id] == r@[j] && r@[j].user_id == user_id,
            forall|k: u128|
                #[trigger] self@.contains_key(k) && self@[k].user_id == user_id ==> exists|j: int|
                    0 <= j < r@.len() && r@[j].session_id == k,
            ids_unique(r@),
    {
        let mut out: Vec<Model> = Vec::new();
        let mut i: usize = 0;
        while i < self.rows.len()
            invariant
                i <= self.rows@.len(),
                ids_unique(self.rows@),
                forall|j: int|
                    0 <= j < out@.len() ==> exists|a: int|
                        0 <= a < i && #[trigger] out@[j] == self.rows@[a] && out@[j].user_id
                            == user_id,
                forall|a: int|
                    0 <= a < i && self.rows@[a].user_id == user_id ==> exists|j: int|
                        0 <= j < out@.len() && #[trigger] out@[j] == self.rows@[a],
                ids_unique(out@),
            decreases self.rows@.len() - i,
        {
            let m = self.rows[i];
            let ghost old_out = out@;
            if m.user_id == user_id {
                proof {
                    assert forall|j: int| 0 <= j < out@.len() implies out@[j].session_id
                        != m.session_id by {
                        let a = choose|a: int|
                            0 <= a < i && #[trigger] out@[j] == self.rows@[a] && out@[j].user_id
                                == user_id;
                        assert(a != i as int);
                    }
                }
                out.push(m);
            }
            proof {
                assert forall|a: int|
                    0 <= a < i + 1 && self.rows@[a].user_id == user_id implies exists|j: int|
                    0 <= j < out@.len() && #[trigger] out@[j] == self.rows@[a] by {
                    if a < i {
                        let j = choose|j: int|
                            0 <= j < old_out.len() && #[trigger] old_out[j] == self.rows@[a];
                        assert(out@[j] == old_out[j]);
                    } else {
                        assert(out@[out@.len() - 1] == self.rows@[a]);
                    }
                }
            }
            i = i + 1;
        }
        proof {
            assert forall|j: int| 0 <= j < out@.len() implies #[trigger] self@.contains_key(
                out@[j].session_id,
            ) && self@[out@[j].session_id] == out@[j] && out@[j].user_id == user_id by {
                let a = choose|a: int|
                    0 <= a < i && #[trigger] out@[j] == self.rows@[a] && out@[j].user_id
                        == user_id;
                lemma_table_at(self.rows@, a);
            }
            assert forall|k: u128| #[trigger]
                self@.contains_key(k) && self@[k].user_id == user_id implies exists|j: int|
                0 <= j < out@.len() && out@[j].session_id == k by {
                let a = choose|a: int|
                    0 <= a < self.rows@.len() && self.rows@[a].session_id == k;
                lemma_table_at(self.rows@, a);
                let j = choose|j: int| 0 <= j < out@.len() && #[trigger] out@[j] == self.rows@[a];
                assert(out@[j].session_id == k);
            }
        }
        out
    }
}

/// Validating a stored session id with a user id other than its owner's
/// finds nothing.
pub proof fn lemma_validate_needs_owner(t: Map<u128, Model>, session_id: u128, other: u128)
    requires
        t.contains_key(session_id),
        other != t[session_id].user_id,
    ensures
        validate_spec(t, session_id, other) == Err::<Model, SessionError>(SessionError::NotFound),
{
}

/// Once a session is revoked, validating it finds nothing.
pub proof fn lemma_revoked_not_found(
    before: Map<u128, Model>,
    after: Map<u128, Model>,
    session_id: u128,
    user_id: u128,
)
    requires
        after == before.remove(session_id),
    ensures
        validate_spec(after, session_id, user_id) == Err::<Model, SessionError>(
            SessionError::NotFound,
        ),
{
}

/// Two successful creations for one user give distinct session ids; both
/// validate, and revoking either one leaves the other valid.
pub proof fn lemma_two_sessions_independent(
    t0: Map<u128, Model>,
    t1: Map<u128, Model>,
    t2: Map<u128, Model>,
    user_id: u128,
    s1: Model,
    s2: Model,
)
    requires
        create_result(t0, t1, user_id, Ok(s1)),
        create_result(t1, t2, user_id, Ok(s2)),
    ensures
        s1.session_id != s2.session_id,
        validate_spec(t2, s1.session_id, user_id) == Ok::<Model, SessionError>(s1),
        validate_spec(t2, s2.session_id, user_id) == Ok::<Model, SessionError>(s2),
        validate_spec(t2.remove(s1.session_id), s2.session_id, user_id) == Ok::<
            Model,
            SessionError,
        >(s2),
        validate_spec(t2.remove(s2.session_id), s1.session_id, user_id) == Ok::<
            Model,
            SessionError,
        >(s1),
{
    let (id1, n1) = choose|id: u128, n: i64| create_at_result(t0, t1, id, user_id, n, Ok(s1));
    let (id2, n2) = choose|id: u128, n: i64| create_at_result(t1, t2, id, user_id, n, Ok(s2));
    assert(s1 == Model::issued(id1, user_id, n1));
    assert(s2 == Model::issued(id2, user_id, n2));
    assert(t1.contains_key(id1));
    assert(!t1.contains_key(id2));
}

} // verus!
