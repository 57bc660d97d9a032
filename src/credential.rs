//! Salted, memory-hard password hashing and its verification.

use vstd::prelude::*;
use vstd::utf8::encode_utf8;
use argon2::{Config, ThreadMode, Variant};

verus! {

#[verifier::external_type_specification]
#[verifier::external_body]
pub struct ExArgon2Error(argon2::Error);

pub assume_specification<T>[ rand::random::<T> ]() -> (r: T)
    where
        rand::distributions::Standard: rand::distributions::Distribution<T>,
;

/// Bytes of fresh random salt drawn for every hash.
pub const SALT_LEN: usize = 32;

/// Most lanes this library hashes with; each lane runs on a thread of its own.
pub const MAX_LANES: u32 = 16;

/// Largest memory cost (KiB) that argon2 accepts on every target.
pub const MAX_MEM_COST: u32 = 0x20_0000;

/// The text that argon2 produces for `password` (its UTF-8 bytes) under
/// Argon2id, version 0x13, no secret and no associated data.
pub uninterp spec fn argon2id_encoded(
    password: Seq<char>,
    salt: Seq<u8>,
    mem_cost: u32,
    time_cost: u32,
    lanes: u32,
    hash_length: u32,
) -> Seq<char>;

/// What argon2's check of `password` against the encoded hash `encoded`
/// gives: `None` where the encoded text cannot be used.
pub uninterp spec fn argon2_verify_outcome(encoded: Seq<char>, password: Seq<char>) -> Option<bool>;

/// Cost parameters of the hash.
#[derive(Clone, Copy, Debug, PartialEq, Eq)]
pub struct HashParams {
    /// Memory cost in KiB.
    pub mem_cost: u32,
    /// Number of passes.
    pub time_cost: u32,
    /// Degree of parallelism.
    pub lanes: u32,
    /// Length of the hash output in bytes.
    pub hash_length: u32,
}

impl HashParams {
    /// Parameters that argon2 accepts, with at most `MAX_LANES` lanes.
    pub open spec fn accepted(&self) -> bool {
        &&& 1 <= self.lanes <= MAX_LANES
        &&& 8 * self.lanes <= self.mem_cost <= MAX_MEM_COST
        &&& 1 <= self.time_cost
        &&& 4 <= self.hash_length
    }

    /// 64 MiB of memory, ten passes, four lanes and a 32-byte output.
    pub fn recommended() -> (r: HashParams)
        ensures
            r == (HashParams { mem_cost: 65536, time_cost: 10, lanes: 4, hash_length: 32 }),
            r.accepted(),
    {
        HashParams { mem_cost: 65536, time_cost: 10, lanes: 4, hash_length: 32 }
    }

    /// Parameters from their parts, where argon2 accepts them.
    pub fn new(mem_cost: u32, time_cost: u32, lanes: u32, hash_length: u32) -> (r: Option<HashParams>)
        ensures
            r is Some <==> (HashParams { mem_cost, time_cost, lanes, hash_length }).accepted(),
            r matches Some(p) ==> p == (HashParams { mem_cost, time_cost, lanes, hash_length }),
    {
        let p = HashParams { mem_cost, time_cost, lanes, hash_length };
        if 1 <= lanes && lanes <= MAX_LANES && 8 * lanes <= mem_cost && mem_cost <= MAX_MEM_COST
            && 1 <= time_cost && 4 <= hash_length {
            Some(p)
        } else {
            None
        }
    }
}

/// A stored password hash in argon2's encoded form.
#[derive(Clone, Debug, PartialEq, Eq)]
pub struct PasswordHash {
    encoded: String,
}

impl View for PasswordHash {
    type V = Seq<char>;

    closed spec fn view(&self) -> Seq<char> {
        self.encoded@
    }
}

impl PasswordHash {
    /// A hash read back from storage; it is not checked here, and a malformed
    /// one simply never verifies.
    pub fn from_encoded(encoded: String) -> (r: PasswordHash)
        ensures
            r@ == encoded@,
    {
        PasswordHash { encoded }
    }

    /// A copy of this hash.
    pub fn duplicate(&self) -> (r: PasswordHash)
        ensures
            r@ == self@,
    {
        PasswordHash { encoded: self.encoded.clone() }
    }

    /// The encoded text.
    pub fn as_str(&self) -> (r: &str)
        ensures
            r@ == self@,
    {
        self.encoded.as_str()
    }
}

/// Why hashing failed.
#[derive(Clone, Copy, Debug, PartialEq, Eq)]
pub enum HashError {
    /// The password has more than `u32::MAX` bytes.
    PasswordTooLong,
}

/// The start of every text that argon2 encodes for Argon2id, version 0x13.
pub open spec fn argon2id_prefix() -> Seq<char> {
    seq!['$', 'a', 'r', 'g', 'o', 'n', '2', 'i', 'd', '$', 'v', '=', '1', '9', '$']
}

/// Whether `t` starts with `$argon2id$v=19$`.
pub open spec fn is_argon2id_text(t: Seq<char>) -> bool {
    t.len() >= 15 && t.take(15) == argon2id_prefix()
}

/// Whether checking `password` against `encoded` succeeds.
pub open spec fn verify_accepts(encoded: Seq<char>, password: Seq<char>) -> bool {
    argon2_verify_outcome(encoded, password) == Some(true)
}

/// What `hash_password` returns for `password` under `params`.
pub open spec fn hash_password_result(
    password: Seq<char>,
    params: HashParams,
    r: Result<PasswordHash, HashError>,
) -> bool {
    &&& r is Ok <==> encode_utf8(password).len() <= u32::MAX
    &&& r matches Err(e) ==> e == HashError::PasswordTooLong
    &&& r matches Ok(h) ==> exists|salt: Seq<u8>|
        salt.len() == SALT_LEN && h@ == argon2id_encoded(
            password,
            salt,
            params.mem_cost,
            params.time_cost,
            params.lanes,
            params.hash_length,
        )
    &&& r matches Ok(h) ==> verify_accepts(h@, password)
    &&& r matches Ok(h) ==> is_argon2id_text(h@)
}

/// Relies on `argon2::hash_encoded` with Argon2id, version 0x13, an empty secret
/// and no associated data: with accepted parameters and a salt of 8 bytes or more
/// it fails only on a password over `u32::MAX` bytes; its text depends on its
/// arguments alone and starts `$argon2id$v=19$` (`encoding::encode_string`); and
/// `argon2::verify_encoded` accepts that text for the same password, since it
/// decodes the same parameters and salt and recomputes.
#[verifier::external_body]
fn argon2id_hash_encoded(password: &str, salt: &[u8], params: &HashParams) -> (r: Result<
    String,
    argon2::Error,
>)
    requires
        params.accepted(),
        8 <= salt@.len() <= u32::MAX,
    ensures
        r is Ok <==> encode_utf8(password@).len() <= u32::MAX,
        r matches Ok(h) ==> h@ == argon2id_encoded(
            password@,
            salt@,
            params.mem_cost,
            params.time_cost,
            params.lanes,
            params.hash_length,
        ),
        r matches Ok(h) ==> argon2_verify_outcome(h@, password@) == Some(true),
        r matches Ok(h) ==> h@.len() >= 15 && h@.take(15) == argon2id_prefix(),
{
    let config = Config {
        variant: Variant::Argon2id,
        mem_cost: params.mem_cost,
        time_cost: params.time_cost,
        lanes: params.lanes,
        thread_mode: ThreadMode::Parallel,
        hash_length: params.hash_length,
        ..Config::default()
    };
    argon2::hash_encoded(password.as_bytes(), salt, &config)
}

/// Relies on `argon2::verify_encoded`: it decodes the parameters, salt and hash
/// from `encoded` and recomputes, so its outcome depends on its arguments alone.
#[verifier::external_body]
fn argon2_verify_encoded(encoded: &str, password: &str) -> (r: Result<bool, argon2::Error>)
    ensures
        r is Ok <==> argon2_verify_outcome(encoded@, password@) is Some,
        r matches Ok(b) ==> argon2_verify_outcome(encoded@, password@) == Some(b),
{
    argon2::verify_encoded(encoded, password.as_bytes())
}

/// A fresh random salt.
fn fresh_salt() -> (r: Vec<u8>)
    ensures
        r@.len() == SALT_LEN,
{
    let mut salt: Vec<u8> = Vec::new();
    while salt.len() < SALT_LEN
        invariant
            salt@.len() <= SALT_LEN,
        decreases SALT_LEN - salt@.len(),
    {
        salt.push(rand::random::<u8>());
    }
    salt
}

/// Hashes `password` with a fresh random salt.
pub fn hash_password(password: &str, params: &HashParams) -> (r: Result<PasswordHash, HashError>)
    requires
        params.accepted(),
    ensures
        hash_password_result(password@, *params, r),
{
    let salt = fresh_salt();
    match argon2id_hash_encoded(password, salt.as_slice(), params) {
        Ok(encoded) => Ok(PasswordHash { encoded }),
        Err(_) => Err(HashError::PasswordTooLong),
    }
}

/// Checks `password` against a stored hash; a malformed hash gives `false`.
pub fn verify_password(hash: &PasswordHash, password: &str) -> (r: bool)
    ensures
        r == verify_accepts(hash@, password@),
{
    match argon2_verify_encoded(hash.encoded.as_str(), password) {
        Ok(b) => b,
        Err(_) => false,
    }
}

/// A password that meets the policy hashes without failure, and the hash
/// verifies against that same password.
pub proof fn lemma_hash_then_verify(
    password: Seq<char>,
    params: HashParams,
    r: Result<PasswordHash, HashError>,
)
    requires
        crate::utils::meets_password_policy(password),
        params.accepted(),
        hash_password_result(password, params, r),
    ensures
        r is Ok,
        verify_accepts(r->Ok_0@, password),
{
}

/// A stored hash is never the password itself, unless the password starts
/// with `$argon2id$v=19$`.
pub proof fn lemma_hash_is_not_password(
    password: Seq<char>,
    params: HashParams,
    r: Result<PasswordHash, HashError>,
)
    requires
        hash_password_result(password, params, r),
        r is Ok,
        !is_argon2id_text(password),
    ensures
        r->Ok_0@ != password,
{
}

/// Two hashes of the same policy-conforming password both verify against it.
pub proof fn lemma_two_hashes_verify(
    password: Seq<char>,
    params: HashParams,
    r1: Result<PasswordHash, HashError>,
    r2: Result<PasswordHash, HashError>,
)
    requires
        crate::utils::meets_password_policy(password),
        params.accepted(),
        hash_password_result(password, params, r1),
        hash_password_result(password, params, r2),
    ensures
        r1 is Ok && r2 is Ok,
        verify_accepts(r1->Ok_0@, password),
        verify_accepts(r2->Ok_0@, password),
{
    lemma_hash_then_verify(password, params, r1);
    lemma_hash_then_verify(password, params, r2);
}

} // verus!
