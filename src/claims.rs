//! The claims a token carries, and their text: the compact JSON object
//! `{"iat":I,"exp":E,"user":"U","session":"S"}` with `I` and `E` in decimal and
//! `U` and `S` as 32 lowercase hexadecimal digits.

use vstd::prelude::*;
use vstd::string::StrSliceExecFns;
use crate::text::{is_decimal_digit, push_char};

verus! {

/// The claims of a token: issued at, expiry, user id and session id.
#[derive(Clone, Copy, Debug, PartialEq, Eq, Structural)]
pub struct UserToken {
    /// Issued at, in seconds since the Unix epoch.
    pub iat: i64,
    /// Expiry, in seconds since the Unix epoch.
    pub exp: i64,
    /// The user id.
    pub user: u128,
    /// The session id.
    pub session: u128,
}

/// The character of decimal digit `d`.
pub open spec fn digit_char(d: int) -> char {
    ((d + 48) as u8) as char
}

/// The character of hexadecimal digit `d`, lowercase.
pub open spec fn hex_char(d: int) -> char {
    if d < 10 {
        digit_char(d)
    } else {
        ((d + 87) as u8) as char
    }
}

/// The decimal digits of `n`, most significant first, without leading zeros.
pub open spec fn dec_digits(n: nat) -> Seq<char>
    decreases n,
{
    if n < 10 {
        seq![digit_char(n as int)]
    } else {
        dec_digits(n / 10).push(digit_char((n % 10) as int))
    }
}

/// `i` in decimal, with a leading `-` when negative.
pub open spec fn int_text(i: int) -> Seq<char> {
    if i < 0 {
        seq!['-'] + dec_digits((-i) as nat)
    } else {
        dec_digits(i as nat)
    }
}

/// Hexadecimal digit `k` of `x`, counting from the most significant.
pub open spec fn nibble(x: u128, k: int) -> int {
    ((x >> ((4 * (31 - k)) as u128)) & 15u128) as int
}

/// `x` as 32 lowercase hexadecimal digits.
pub open spec fn hex_text(x: u128) -> Seq<char> {
    Seq::new(32, |k: int| hex_char(nibble(x, k)))
}

/// The text before the issue time.
pub open spec fn key_iat() -> Seq<char> {
    seq!['{', '"', 'i', 'a', 't', '"', ':']
}

/// The text between the issue time and the expiry.
pub open spec fn key_exp() -> Seq<char> {
    seq![',', '"', 'e', 'x', 'p', '"', ':']
}

/// The text between the expiry and the user id.
pub open spec fn key_user() -> Seq<char> {
    seq![',', '"', 'u', 's', 'e', 'r', '"', ':', '"']
}

/// The text between the user id and the session id.
pub open spec fn key_session() -> Seq<char> {
    seq!['"', ',', '"', 's', 'e', 's', 's', 'i', 'o', 'n', '"', ':', '"']
}

/// The text after the session id.
pub open spec fn closing() -> Seq<char> {
    seq!['"', '}']
}

/// The text of the claims `c`.
pub open spec fn claims_text(c: UserToken) -> Seq<char> {
    key_iat() + int_text(c.iat as int) + key_exp() + int_text(c.exp as int) + ids_text(
        c.user,
        c.session,
    )
}

/// The claims whose text is `t`, if any.
pub open spec fn claims_of_text(t: Seq<char>) -> Option<UserToken> {
    if exists|c: UserToken| claims_text(c) == t {
        Some(choose|c: UserToken| claims_text(c) == t)
    } else {
        None
    }
}

/// The value of a string of decimal digits.
pub open spec fn dec_value(s: Seq<char>) -> int
    decreases s.len(),
{
    if s.len() == 0 {
        0
    } else {
        dec_value(s.drop_last()) * 10 + (s.last() as int - 48)
    }
}

/// The first `k` hexadecimal digits of `x`, as a number.
pub open spec fn hex_prefix(x: u128, k: int) -> u128 {
    if k <= 0 {
        0
    } else {
        x >> ((4 * (32 - k)) as u128)
    }
}

proof fn lemma_dec_digits(n: nat)
    ensures
        dec_digits(n).len() >= 1,
        forall|i: int| 0 <= i < dec_digits(n).len() ==> is_decimal_digit(#[trigger] dec_digits(n)[i]),
        dec_value(dec_digits(n)) == n,
    decreases n,
{
    if n >= 10 {
        lemma_dec_digits(n / 10);
        let s = dec_digits(n);
        assert(s.drop_last() == dec_digits(n / 10));
        assert(s.last() == digit_char((n % 10) as int));
        assert(s.last() as int - 48 == n % 10);
        assert(n == (n / 10) * 10 + n % 10);
    } else {
        let s = dec_digits(n);
        assert(s.drop_last() =~= Seq::<char>::empty());
        assert(dec_value(s.drop_last()) == 0);
        assert(s.last() as int - 48 == n);
    }
}

proof fn lemma_dec_value_prefix(s: Seq<char>, k: int)
    requires
        0 <= k <= s.len(),
        forall|i: int| 0 <= i < s.len() ==> is_decimal_digit(#[trigger] s[i]),
    ensures
        0 <= dec_value(s.take(k)) <= dec_value(s),
    decreases s.len(),
{
    if s.len() > 0 {
        let t = s.drop_last();
        assert forall|i: int| 0 <= i < t.len() implies is_decimal_digit(#[trigger] t[i]) by {
            assert(t[i] == s[i]);
        }
        if k == s.len() {
            assert(s.take(k) =~= s);
            lemma_dec_value_prefix(t, 0);
            assert(t.take(0) =~= Seq::<char>::empty());
        } else {
            lemma_dec_value_prefix(t, k);
            assert(t.take(k) =~= s.take(k));
            lemma_dec_value_prefix(t, t.len() as int);
            assert(t.take(t.len() as int) =~= t);
        }
    } else {
        assert(s.take(k) =~= s);
    }
}

proof fn lemma_int_text(i: int)
    ensures
        int_text(i).len() >= 1,
        forall|j: int| 0 <= j < int_text(i).len() ==> (#[trigger] int_text(i)[j]) != ',',
        forall|j: int| 0 <= j < int_text(i).len() ==> (#[trigger] int_text(i)[j]) != '"',
        i < 0 <==> int_text(i)[0] == '-',
{
    if i < 0 {
        lemma_dec_digits((-i) as nat);
        let d = dec_digits((-i) as nat);
        assert forall|j: int| 0 <= j < int_text(i).len() implies (#[trigger] int_text(i)[j]) != ','
            && int_text(i)[j] != '"' by {
            if j > 0 {
                assert(int_text(i)[j] == d[j - 1]);
            }
        }
    } else {
        lemma_dec_digits(i as nat);
    }
}

proof fn lemma_int_text_injective(a: int, b: int)
    requires
        int_text(a) == int_text(b),
    ensures
        a == b,
{
    lemma_int_text(a);
    lemma_int_text(b);
    if a < 0 {
        lemma_dec_digits((-a) as nat);
        lemma_dec_digits((-b) as nat);
        assert(dec_digits((-a) as nat) =~= int_text(a).drop_first());
        assert(dec_digits((-b) as nat) =~= int_text(b).drop_first());
    } else {
        lemma_dec_digits(a as nat);
        lemma_dec_digits(b as nat);
    }
}

proof fn lemma_hex_step(x: u128, s: u128)
    by (bit_vector)
    requires
        s <= 124,
    ensures
        ((x >> (s + 4)) << 4u128) | ((x >> s) & 15u128) == x >> s,
{
}

proof fn lemma_hex_first(x: u128)
    by (bit_vector)
    ensures
        (0u128 << 4u128) | ((x >> 124u128) & 15u128) == x >> 124u128,
{
}

proof fn lemma_shift_zero(x: u128)
    by (bit_vector)
    ensures
        x >> 0u128 == x,
{
}

proof fn lemma_nibble_small(x: u128, s: u128)
    by (bit_vector)
    ensures
        (x >> s) & 15u128 < 16u128,
{
}

/// One step of reading hexadecimal digits.
proof fn lemma_hex_prefix_step(x: u128, k: int)
    requires
        0 <= k < 32,
    ensures
        hex_prefix(x, k + 1) == (hex_prefix(x, k) << 4u128) | (nibble(x, k) as u128),
        0 <= nibble(x, k) < 16,
{
    let s = (4 * (31 - k)) as u128;
    lemma_nibble_small(x, s);
    if k == 0 {
        lemma_hex_first(x);
    } else {
        lemma_hex_step(x, s);
        assert((4 * (32 - k)) as u128 == s + 4);
    }
}

proof fn lemma_hex_char(d: int)
    requires
        0 <= d < 16,
    ensures
        d < 10 ==> hex_char(d) as u32 == d + 48 && is_decimal_digit(hex_char(d)),
        d >= 10 ==> hex_char(d) as u32 == d + 87 && 'a' <= hex_char(d) <= 'f',
{
}

proof fn lemma_hex_prefix_equal(a: u128, b: u128, k: int)
    requires
        hex_text(a) == hex_text(b),
        0 <= k <= 32,
    ensures
        hex_prefix(a, k) == hex_prefix(b, k),
    decreases k,
{
    if k > 0 {
        lemma_hex_prefix_equal(a, b, k - 1);
        lemma_hex_prefix_step(a, k - 1);
        lemma_hex_prefix_step(b, k - 1);
        lemma_hex_char(nibble(a, k - 1));
        lemma_hex_char(nibble(b, k - 1));
        assert(hex_text(a)[k - 1] == hex_text(b)[k - 1]);
        assert(hex_text(a)[k - 1] == hex_char(nibble(a, k - 1)));
        assert(hex_text(b)[k - 1] == hex_char(nibble(b, k - 1)));
        assert(hex_char(nibble(a, k - 1)) == hex_char(nibble(b, k - 1)));
        assert(nibble(a, k - 1) == nibble(b, k - 1));
    }
}

proof fn lemma_hex_text_injective(a: u128, b: u128)
    requires
        hex_text(a) == hex_text(b),
    ensures
        a == b,
{
    lemma_hex_prefix_equal(a, b, 32);
    lemma_shift_zero(a);
    lemma_shift_zero(b);
}

/// A number's text followed by a comma splits in one way only.
proof fn lemma_split_int(u: Seq<char>, x1: int, r1: Seq<char>, x2: int, r2: Seq<char>)
    requires
        u == int_text(x1) + r1,
        u == int_text(x2) + r2,
        r1.len() > 0 && r1[0] == ',',
        r2.len() > 0 && r2[0] == ',',
    ensures
        x1 == x2,
        r1 == r2,
{
    let a1 = int_text(x1);
    let a2 = int_text(x2);
    lemma_int_text(x1);
    lemma_int_text(x2);
    if a1.len() < a2.len() {
        assert(u[a1.len() as int] == r1[0]);
        assert(u[a1.len() as int] == a2[a1.len() as int]);
    }
    if a2.len() < a1.len() {
        assert(u[a2.len() as int] == r2[0]);
        assert(u[a2.len() as int] == a1[a2.len() as int]);
    }
    assert(a1 =~= u.take(a1.len() as int));
    assert(a2 =~= u.take(a2.len() as int));
    lemma_int_text_injective(x1, x2);
    assert(r1 =~= u.skip(a1.len() as int));
    assert(r2 =~= u.skip(a2.len() as int));
}

/// The part of a claims text after the expiry.
pub open spec fn ids_text(user: u128, session: u128) -> Seq<char> {
    key_user() + hex_text(user) + key_session() + hex_text(session) + closing()
}

proof fn lemma_ids_text_injective(u1: u128, s1: u128, u2: u128, s2: u128)
    requires
        ids_text(u1, s1) == ids_text(u2, s2),
    ensures
        u1 == u2,
        s1 == s2,
{
    let w1 = ids_text(u1, s1);
    let w2 = ids_text(u2, s2);
    assert(hex_text(u1) =~= w1.subrange(9, 41));
    assert(hex_text(u2) =~= w2.subrange(9, 41));
    assert(hex_text(s1) =~= w1.subrange(54, 86));
    assert(hex_text(s2) =~= w2.subrange(54, 86));
    lemma_hex_text_injective(u1, u2);
    lemma_hex_text_injective(s1, s2);
}

proof fn lemma_skip_concat(a: Seq<char>, b: Seq<char>)
    ensures
        (a + b).skip(a.len() as int) == b,
{
    assert((a + b).skip(a.len() as int) =~= b);
}

proof fn lemma_regroup(a: Seq<char>, b: Seq<char>, c: Seq<char>, d: Seq<char>, e: Seq<char>)
    ensures
        a + b + c + d + e == a + (b + (c + (d + e))),
{
    assert(a + b + c + d + e =~= a + (b + (c + (d + e))));
}

/// Different claims have different texts.
pub proof fn lemma_claims_text_injective(c1: UserToken, c2: UserToken)
    requires
        claims_text(c1) == claims_text(c2),
    ensures
        c1 == c2,
{
    let k = key_exp();
    let i1 = int_text(c1.iat as int);
    let i2 = int_text(c2.iat as int);
    let e1 = int_text(c1.exp as int);
    let e2 = int_text(c2.exp as int);
    let w1 = ids_text(c1.user, c1.session);
    let w2 = ids_text(c2.user, c2.session);
    lemma_regroup(key_iat(), i1, k, e1, w1);
    lemma_regroup(key_iat(), i2, k, e2, w2);
    assert(key_iat().len() == 7);
    lemma_skip_concat(key_iat(), i1 + (k + (e1 + w1)));
    lemma_skip_concat(key_iat(), i2 + (k + (e2 + w2)));
    assert((k + (e1 + w1))[0] == ',');
    assert((k + (e2 + w2))[0] == ',');
    lemma_split_int(
        claims_text(c1).skip(7),
        c1.iat as int,
        k + (e1 + w1),
        c2.iat as int,
        k + (e2 + w2),
    );
    assert(k.len() == 7);
    lemma_skip_concat(k, e1 + w1);
    lemma_skip_concat(k, e2 + w2);
    assert(w1[0] == ',');
    assert(w2[0] == ',');
    lemma_split_int(e1 + w1, c1.exp as int, w1, c2.exp as int, w2);
    lemma_ids_text_injective(c1.user, c1.session, c2.user, c2.session);
}

proof fn lemma_peel(s: Seq<char>, pos: int, a: Seq<char>, b: Seq<char>)
    requires
        0 <= pos <= s.len(),
        s.skip(pos) == a + b,
    ensures
        pos + a.len() <= s.len(),
        s.subrange(pos, pos + a.len()) == a,
        s.skip(pos + a.len()) == b,
{
    assert(s.subrange(pos, pos + a.len()) =~= (a + b).take(a.len() as int));
    assert((a + b).take(a.len() as int) =~= a);
    assert(s.skip(pos + a.len()) =~= (a + b).skip(a.len() as int));
    assert((a + b).skip(a.len() as int) =~= b);
}

fn push_str(out: &mut String, lit: &str)
    ensures
        final(out)@ == old(out)@ + lit@,
{
    out.append(lit);
}

fn push_digit(out: &mut String, d: u64)
    requires
        d < 10,
    ensures
        final(out)@ == old(out)@.push(digit_char(d as int)),
{
    push_char(out, ((d as u8) + 48) as char);
}

fn push_dec(out: &mut String, n: u64)
    ensures
        final(out)@ == old(out)@ + dec_digits(n as nat),
    decreases n,
{
    if n < 10 {
        push_digit(out, n);
        assert(old(out)@.push(digit_char(n as int)) =~= old(out)@ + dec_digits(n as nat));
    } else {
        push_dec(out, n / 10);
        push_digit(out, n % 10);
        assert((old(out)@ + dec_digits((n / 10) as nat)).push(digit_char((n % 10) as int))
            =~= old(out)@ + dec_digits(n as nat));
    }
}

fn push_int(out: &mut String, x: i64)
    ensures
        final(out)@ == old(out)@ + int_text(x as int),
{
    if x < 0 {
        push_char(out, '-');
        let m: u64 = (0i128 - (x as i128)) as u64;
        push_dec(out, m);
        assert(old(out)@.push('-') + dec_digits(m as nat) =~= old(out)@ + int_text(x as int));
    } else {
        push_dec(out, x as u64);
    }
}

fn push_hex32(out: &mut String, x: u128)
    ensures
        final(out)@ == old(out)@ + hex_text(x),
{
    let ghost start = out@;
    let mut k: u32 = 0;
    while k < 32
        invariant
            k <= 32,
            out@ == start + hex_text(x).take(k as int),
        decreases 32 - k,
    {
        let d = ((x >> (4 * (31 - k)) as u128) & 15u128) as u8;
        proof {
            lemma_nibble_small(x, (4 * (31 - k)) as u128);
            assert(d as int == nibble(x, k as int));
        }
        if d < 10 {
            push_char(out, (d + 48) as char);
        } else {
            push_char(out, (d + 87) as char);
        }
        assert(out@ =~= start + hex_text(x).take(k + 1));
        k = k + 1;
    }
    assert(hex_text(x).take(32) =~= hex_text(x));
}

fn push_literal(out: &mut String, lit: &str, Ghost(expected): Ghost<Seq<char>>)
    requires
        lit@ == expected,
    ensures
        final(out)@ == old(out)@ + expected,
{
    push_str(out, lit);
}

/// The text of the claims `c`.
pub fn claims_to_text(c: &UserToken) -> (r: String)
    ensures
        r@ == claims_text(*c),
{
    let mut out = String::new();
    proof {
        reveal_strlit("{\"iat\":");
    }
    assert("{\"iat\":"@ =~= key_iat());
    push_literal(&mut out, "{\"iat\":", Ghost(key_iat()));
    push_int(&mut out, c.iat);
    proof {
        reveal_strlit(",\"exp\":");
    }
    assert(",\"exp\":"@ =~= key_exp());
    push_literal(&mut out, ",\"exp\":", Ghost(key_exp()));
    push_int(&mut out, c.exp);
    push_ids(&mut out, c.user, c.session);
    assert(out@ =~= claims_text(*c));
    out
}

fn push_ids(out: &mut String, user: u128, session: u128)
    ensures
        final(out)@ == old(out)@ + ids_text(user, session),
{
    proof {
        reveal_strlit(",\"user\":\"");
    }
    assert(",\"user\":\""@ =~= key_user());
    push_literal(out, ",\"user\":\"", Ghost(key_user()));
    push_hex32(out, user);
    proof {
        reveal_strlit("\",\"session\":\"");
    }
    assert("\",\"session\":\""@ =~= key_session());
    push_literal(out, "\",\"session\":\"", Ghost(key_session()));
    push_hex32(out, session);
    proof {
        reveal_strlit("\"}");
    }
    assert("\"}"@ =~= closing());
    push_literal(out, "\"}", Ghost(closing()));
    assert(out@ =~= old(out)@ + ids_text(user, session));
}

/// Whether `lit` stands in `s` at `pos`.
fn expect_at(s: &str, n: usize, pos: usize, lit: &str) -> (r: bool)
    requires
        n == s@.len(),
        pos <= n,
    ensures
        r == (pos + lit@.len() <= n && s@.subrange(pos as int, pos + lit@.len()) == lit@),
{
    let m = lit.unicode_len();
    if m > n - pos {
        return false;
    }
    let mut j: usize = 0;
    while j < m
        invariant
            n == s@.len(),
            m == lit@.len(),
            pos + m <= n,
            j <= m,
            forall|q: int| 0 <= q < j ==> s@[pos + q] == lit@[q],
        decreases m - j,
    {
        if s.get_char(pos + j) != lit.get_char(j) {
            assert(s@.subrange(pos as int, pos + m)[j as int] != lit@[j as int]);
            return false;
        }
        j = j + 1;
    }
    assert(s@.subrange(pos as int, pos + m) =~= lit@);
    true
}

fn digit_at(s: &str, n: usize, i: usize) -> (r: bool)
    requires
        n == s@.len(),
    ensures
        r == (i < n && is_decimal_digit(s@[i as int])),
{
    if i < n {
        let c = s.get_char(i);
        '0' <= c && c <= '9'
    } else {
        false
    }
}

/// Reads an `i64` in decimal at `pos`: an optional `-` and at least one digit.
fn parse_int(s: &str, n: usize, pos: usize, Ghost(x): Ghost<int>, Ghost(rest): Ghost<Seq<char>>) -> (r:
    Option<(i64, usize)>)
    requires
        n == s@.len(),
        pos <= n,
    ensures
        (i64::MIN <= x <= i64::MAX && s@.skip(pos as int) == int_text(x) + rest && rest.len() > 0
            && !is_decimal_digit(rest[0])) ==> r == Some((x as i64, (pos + int_text(x).len()) as usize)),
{
    let ghost h = i64::MIN <= x <= i64::MAX && s@.skip(pos as int) == int_text(x) + rest
        && rest.len() > 0 && !is_decimal_digit(rest[0]);
    let ghost digits = if x < 0 {
        dec_digits((-x) as nat)
    } else {
        dec_digits(x as nat)
    };
    let ghost mag: int = if x < 0 {
        -x
    } else {
        x
    };
    let neg = pos < n && s.get_char(pos) == '-';
    let start: usize = if neg {
        pos + 1
    } else {
        pos
    };
    proof {
        if h {
            lemma_int_text(x);
            lemma_dec_digits(mag as nat);
            assert((int_text(x) + rest).len() > 0);
            assert(s@.skip(pos as int).len() > 0);
            assert(pos < n);
            assert(s@[pos as int] == s@.skip(pos as int)[0]);
            assert(s@.skip(pos as int)[0] == int_text(x)[0]);
            assert(neg == (x < 0));
            if x < 0 {
                assert(s@.skip(pos as int) =~= seq!['-'] + (digits + rest));
                lemma_peel(s@, pos as int, seq!['-'], digits + rest);
            } else {
                assert(s@.skip(pos as int) =~= digits + rest);
            }
            lemma_peel(s@, start as int, digits, rest);
        }
    }
    let mut i: usize = start;
    let mut acc: u64 = 0;
    while digit_at(s, n, i)
        invariant
            n == s@.len(),
            start <= i <= n,
            acc as int == dec_value(s@.subrange(start as int, i as int)),
            h == (i64::MIN <= x <= i64::MAX && s@.skip(pos as int) == int_text(x) + rest
                && rest.len() > 0 && !is_decimal_digit(rest[0])),
            h ==> i <= start + digits.len() <= n,
            h ==> s@.subrange(start as int, start + digits.len()) == digits,
            h ==> s@.skip(start + digits.len()) == rest,
            h ==> rest.len() > 0 && !is_decimal_digit(rest[0]),
            h ==> mag <= 0x8000_0000_0000_0000,
            h ==> dec_value(digits) == mag,
            h ==> forall|q: int| 0 <= q < digits.len() ==> is_decimal_digit(#[trigger] digits[q]),
        decreases n - i,
    {
        let c = s.get_char(i);
        let d: u64 = (c as u32 - 48) as u64;
        proof {
            assert(s@.subrange(start as int, i + 1).drop_last() =~= s@.subrange(start as int, i as int));
            assert(dec_value(s@.subrange(start as int, i + 1)) == acc * 10 + d);
            if h {
                if i == start + digits.len() {
                    assert(s@[i as int] == s@.skip(start + digits.len())[0]);
                }
                assert(i < start + digits.len());
                lemma_dec_value_prefix(digits, i + 1 - start);
                assert(digits.take(i + 1 - start) =~= s@.subrange(start as int, i + 1));
            }
        }
        match acc.checked_mul(10) {
            Some(a) => match a.checked_add(d) {
                Some(b) => {
                    acc = b;
                },
                None => {
                    return None;
                },
            },
            None => {
                return None;
            },
        }
        i = i + 1;
    }
    proof {
        if h {
            if i < start + digits.len() {
                assert(s@[i as int] == digits[i - start]);
            }
            assert(i == start + digits.len());
        }
    }
    if i == start {
        return None;
    }
    if neg {
        if acc > 0x8000_0000_0000_0000 {
            None
        } else {
            Some(((0i128 - (acc as i128)) as i64, i))
        }
    } else {
        if acc > 0x7fff_ffff_ffff_ffff {
            None
        } else {
            Some((acc as i64, i))
        }
    }
}

/// Reads 32 lowercase hexadecimal digits at `pos`.
fn parse_hex32(s: &str, n: usize, pos: usize, Ghost(x): Ghost<u128>) -> (r: Option<u128>)
    requires
        n == s@.len(),
        pos + 32 <= n,
    ensures
        s@.subrange(pos as int, pos + 32) == hex_text(x) ==> r == Some(x),
{
    let ghost h = s@.subrange(pos as int, pos + 32) == hex_text(x);
    let mut acc: u128 = 0;
    let mut k: usize = 0;
    while k < 32
        invariant
            n == s@.len(),
            pos + 32 <= n,
            k <= 32,
            h == (s@.subrange(pos as int, pos + 32) == hex_text(x)),
            h ==> acc == hex_prefix(x, k as int),
        decreases 32 - k,
    {
        let c = s.get_char(pos + k);
        let d: u32 = if '0' <= c && c <= '9' {
            c as u32 - 48
        } else if 'a' <= c && c <= 'f' {
            c as u32 - 87
        } else {
            proof {
                if h {
                    assert(s@.subrange(pos as int, pos + 32)[k as int] == s@[pos + k]);
                    assert(hex_text(x)[k as int] == hex_char(nibble(x, k as int)));
                    lemma_hex_prefix_step(x, k as int);
                    lemma_hex_char(nibble(x, k as int));
                }
            }
            return None;
        };
        proof {
            if h {
                assert(s@.subrange(pos as int, pos + 32)[k as int] == s@[pos + k]);
                assert(hex_text(x)[k as int] == hex_char(nibble(x, k as int)));
                assert(c == hex_text(x)[k as int]);
                lemma_hex_prefix_step(x, k as int);
                lemma_hex_char(nibble(x, k as int));
                assert(d as int == nibble(x, k as int));
            }
        }
        acc = (acc << 4u128) | (d as u128);
        k = k + 1;
    }
    proof {
        lemma_shift_zero(x);
    }
    Some(acc)
}

fn expect_key_iat(s: &str, n: usize, pos: usize) -> (r: bool)
    requires
        n == s@.len(),
        pos <= n,
    ensures
        r == (pos + 7 <= n && s@.subrange(pos as int, pos + 7) == key_iat()),
{
    proof {
        reveal_strlit("{\"iat\":");
    }
    assert("{\"iat\":"@ =~= key_iat());
    expect_at(s, n, pos, "{\"iat\":")
}

fn expect_key_exp(s: &str, n: usize, pos: usize) -> (r: bool)
    requires
        n == s@.len(),
        pos <= n,
    ensures
        r == (pos + 7 <= n && s@.subrange(pos as int, pos + 7) == key_exp()),
{
    proof {
        reveal_strlit(",\"exp\":");
    }
    assert(",\"exp\":"@ =~= key_exp());
    expect_at(s, n, pos, ",\"exp\":")
}

fn expect_key_user(s: &str, n: usize, pos: usize) -> (r: bool)
    requires
        n == s@.len(),
        pos <= n,
    ensures
        r == (pos + 9 <= n && s@.subrange(pos as int, pos + 9) == key_user()),
{
    proof {
        reveal_strlit(",\"user\":\"");
    }
    assert(",\"user\":\""@ =~= key_user());
    expect_at(s, n, pos, ",\"user\":\"")
}

fn expect_key_session(s: &str, n: usize, pos: usize) -> (r: bool)
    requires
        n == s@.len(),
        pos <= n,
    ensures
        r == (pos + 13 <= n && s@.subrange(pos as int, pos + 13) == key_session()),
{
    proof {
        reveal_strlit("\",\"session\":\"");
    }
    assert("\",\"session\":\""@ =~= key_session());
    expect_at(s, n, pos, "\",\"session\":\"")
}

fn expect_closing(s: &str, n: usize, pos: usize) -> (r: bool)
    requires
        n == s@.len(),
        pos <= n,
    ensures
        r == (pos + 2 <= n && s@.subrange(pos as int, pos + 2) == closing()),
{
    proof {
        reveal_strlit("\"}");
    }
    assert("\"}"@ =~= closing());
    expect_at(s, n, pos, "\"}")
}

/// Reads the part of a claims text from the user id on.
fn parse_ids(s: &str, n: usize, pos: usize, Ghost(user): Ghost<u128>, Ghost(session): Ghost<u128>) -> (r:
    Option<(u128, u128)>)
    requires
        n == s@.len(),
        pos <= n,
    ensures
        s@.skip(pos as int) == ids_text(user, session) ==> r == Some((user, session)),
{
    let ghost h = s@.skip(pos as int) == ids_text(user, session);
    let ghost u_t = hex_text(user);
    let ghost s_t = hex_text(session);
    let ghost tail = closing();
    let ghost after_s = s_t + tail;
    let ghost after_ks = key_session() + after_s;
    let ghost after_u = u_t + after_ks;
    proof {
        if h {
            lemma_regroup(key_user(), u_t, key_session(), s_t, tail);
            lemma_peel(s@, pos as int, key_user(), after_u);
            lemma_peel(s@, pos + 9, u_t, after_ks);
        }
    }
    if !expect_key_user(s, n, pos) {
        return None;
    }
    let p1 = pos + 9;
    if n - p1 < 32 {
        return None;
    }
    let u = match parse_hex32(s, n, p1, Ghost(user)) {
        Some(v) => v,
        None => {
            return None;
        },
    };
    let p2 = p1 + 32;
    proof {
        if h {
            lemma_peel(s@, p2 as int, key_session(), after_s);
            lemma_peel(s@, p2 + 13, s_t, tail);
        }
    }
    if !expect_key_session(s, n, p2) {
        return None;
    }
    let p3 = p2 + 13;
    if n - p3 < 32 {
        return None;
    }
    let v = match parse_hex32(s, n, p3, Ghost(session)) {
        Some(v) => v,
        None => {
            return None;
        },
    };
    let p4 = p3 + 32;
    if !expect_closing(s, n, p4) || n - p4 != 2 {
        return None;
    }
    Some((u, v))
}

proof fn lemma_ids_text_starts_with_comma(user: u128, session: u128)
    ensures
        ids_text(user, session).len() > 0,
        ids_text(user, session)[0] == ',',
{
    assert(ids_text(user, session)[0] == key_user()[0]);
}

fn parse_claims_fields(s: &str, Ghost(c): Ghost<UserToken>) -> (r: Option<UserToken>)
    ensures
        s@ == claims_text(c) ==> r == Some(c),
{
    let ghost h = s@ == claims_text(c);
    let n = s.unicode_len();
    let ghost i_t = int_text(c.iat as int);
    let ghost e_t = int_text(c.exp as int);
    let ghost w = ids_text(c.user, c.session);
    let ghost after_i = key_exp() + (e_t + w);
    proof {
        if h {
            lemma_regroup(key_iat(), i_t, key_exp(), e_t, w);
            assert(s@.skip(0) =~= s@);
            lemma_peel(s@, 0, key_iat(), i_t + after_i);
            assert(after_i[0] == key_exp()[0]);
        }
    }
    if !expect_key_iat(s, n, 0) {
        return None;
    }
    let (iat, p2) = match parse_int(s, n, 7, Ghost(c.iat as int), Ghost(after_i)) {
        Some(v) => v,
        None => {
            return None;
        },
    };
    proof {
        if h {
            lemma_peel(s@, 7, i_t, after_i);
            lemma_peel(s@, p2 as int, key_exp(), e_t + w);
            lemma_ids_text_starts_with_comma(c.user, c.session);
        }
    }
    if p2 > n || !expect_key_exp(s, n, p2) {
        return None;
    }
    let p3 = p2 + 7;
    let (exp, p4) = match parse_int(s, n, p3, Ghost(c.exp as int), Ghost(w)) {
        Some(v) => v,
        None => {
            return None;
        },
    };
    proof {
        if h {
            lemma_peel(s@, p3 as int, e_t, w);
        }
    }
    if p4 > n {
        return None;
    }
    match parse_ids(s, n, p4, Ghost(c.user), Ghost(c.session)) {
        Some((user, session)) => Some(UserToken { iat, exp, user, session }),
        None => None,
    }
}

/// The claims whose text is exactly `s`, if any.
pub fn claims_from_text(s: &str) -> (r: Option<UserToken>)
    ensures
        r == claims_of_text(s@),
{
    let ghost target = choose|c: UserToken| claims_text(c) == s@;
    match parse_claims_fields(s, Ghost(target)) {
        Some(c) => {
            let t = claims_to_text(&c);
            let owned = s.to_owned();
            if t == owned {
                proof {
                    assert(claims_text(c) == s@);
                    let d = choose|d: UserToken| claims_text(d) == s@;
                    lemma_claims_text_injective(c, d);
                }
                Some(c)
            } else {
                None
            }
        },
        None => None,
    }
}

/// Reading back the text of any claims gives those claims.
pub proof fn lemma_claims_round_trip(c: UserToken)
    ensures
        claims_of_text(claims_text(c)) == Some(c),
{
    let d = choose|d: UserToken| claims_text(d) == claims_text(c);
    lemma_claims_text_injective(c, d);
}

} // verus!
