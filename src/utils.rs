//! Input rules applied before credentials are stored.

use vstd::prelude::*;
use std::str::FromStr;
use vstd::utf8::encode_utf8;
use vstd::string::StrSliceExecFns;
use crate::text::{
    char_is_lowercase, char_is_uppercase, char_is_whitespace, has_lowercase_property,
    has_uppercase_property, is_decimal_digit, is_white_space,
};

verus! {

/// Fewest bytes a password may have.
pub const MIN_PASSWORD_BYTES: usize = 8;

/// Most bytes a password may have.
pub const MAX_PASSWORD_BYTES: usize = 128;

/// The password policy: no white space, at least one uppercase letter, one
/// lowercase letter and one decimal digit, and a UTF-8 length from 8 to 128 bytes.
pub open spec fn meets_password_policy(p: Seq<char>) -> bool {
    &&& forall|i: int| 0 <= i < p.len() ==> !is_white_space(#[trigger] p[i])
    &&& exists|i: int| 0 <= i < p.len() && has_uppercase_property(#[trigger] p[i])
    &&& exists|i: int| 0 <= i < p.len() && has_lowercase_property(#[trigger] p[i])
    &&& exists|i: int| 0 <= i < p.len() && is_decimal_digit(#[trigger] p[i])
    &&& MIN_PASSWORD_BYTES <= encode_utf8(p).len() <= MAX_PASSWORD_BYTES
}

/// Checks a candidate password against the password policy.
pub fn is_password_valid(s: &str) -> (r: bool)
    ensures
        r == meets_password_policy(s@),
{
    let nbytes = s.as_bytes().len();
    if nbytes < MIN_PASSWORD_BYTES || nbytes > MAX_PASSWORD_BYTES {
        return false;
    }
    let n = s.unicode_len();
    let mut has_whitespace = false;
    let mut has_upper = false;
    let mut has_lower = false;
    let mut has_digit = false;
    let mut i: usize = 0;
    while i < n
        invariant
            n == s@.len(),
            i <= n,
            has_whitespace == exists|j: int| 0 <= j < i && is_white_space(#[trigger] s@[j]),
            has_upper == exists|j: int| 0 <= j < i && has_uppercase_property(#[trigger] s@[j]),
            has_lower == exists|j: int| 0 <= j < i && has_lowercase_property(#[trigger] s@[j]),
            has_digit == exists|j: int| 0 <= j < i && is_decimal_digit(#[trigger] s@[j]),
        decreases n - i,
    {
        let c = s.get_char(i);
        has_whitespace = has_whitespace || char_is_whitespace(c);
        has_upper = has_upper || char_is_uppercase(c);
        has_lower = has_lower || char_is_lowercase(c);
        has_digit = has_digit || ('0' <= c && c <= '9');
        i = i + 1;
    }
    assert(!has_whitespace <==> forall|j: int| 0 <= j < s@.len() ==> !is_white_space(#[trigger] s@[j]));
    !has_whitespace && has_upper && has_lower && has_digit
}

/// Whether the cron crate accepts `s` as a schedule expression.
pub uninterp spec fn cron_expression_parses(s: Seq<char>) -> bool;

/// Relies on `cron::Schedule::from_str`: whether it parses depends on the text alone.
#[verifier::external_body]
fn cron_parses(s: &str) -> (r: bool)
    ensures
        r == cron_expression_parses(s@),
{
    cron::Schedule::from_str(s).is_ok()
}

/// Whether `cron` is a valid schedule expression for a dosage schedule.
pub fn validate_cron_expression(cron: String) -> (r: bool)
    ensures
        r == cron_expression_parses(cron@),
{
    cron_parses(cron.as_str())
}

} // verus!
