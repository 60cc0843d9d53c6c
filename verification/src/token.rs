//! Session tokens: a fresh, high-entropy correlation identifier per run.
//! A token is the fixed prefix `run-in-roblox-` followed by the lower-case
//! hex digits of a random 128-bit value. It is used only for correlation —
//! equality is exact and case-sensitive — never persisted.

use vstd::arithmetic::div_mod::lemma_div_decreases;
use vstd::prelude::*;

use crate::bytes::bytes_eq;

verus! {

/// The ASCII code of the lower-case hex digit for `d`, for `d < 16`.
pub open spec fn hex_digit(d: u8) -> u8 {
    if d < 10 {
        (48 + d) as u8  // '0' + d
    } else {
        (87 + d) as u8  // 'a' + (d - 10)
    }
}

/// The lower-case hex digits of `n`, most significant first, with no leading
/// zeros (a single `0` for zero itself).
pub open spec fn hex_bytes(n: u128) -> Seq<u8>
    decreases n,
    via hex_bytes_decreases
{
    if n < 16 {
        seq![hex_digit((n % 16) as u8)]
    } else {
        hex_bytes((n / 16) as u128).push(hex_digit((n % 16) as u8))
    }
}

#[via_fn]
proof fn hex_bytes_decreases(n: u128) {
    if n >= 16 {
        lemma_div_decreases(n as int, 16);
    }
}

fn hex_digit_exec(d: u8) -> (r: u8)
    requires
        d < 16,
    ensures
        r == hex_digit(d),
{
    if d < 10 {
        48 + d
    } else {
        87 + d
    }
}

/// Render `n` in lower-case hex, as the standard `{:x}` formatting does.
pub fn render_hex(n: u128) -> (r: Vec<u8>)
    ensures
        r@ == hex_bytes(n),
    decreases n,
{
    if n < 16 {
        let mut v: Vec<u8> = Vec::new();
        v.push(hex_digit_exec((n % 16) as u8));
        proof {
            assert(v@ =~= hex_bytes(n));
        }
        v
    } else {
        proof {
            lemma_div_decreases(n as int, 16);
        }
        let mut v = render_hex(n / 16);
        v.push(hex_digit_exec((n % 16) as u8));
        v
    }
}

/// The bytes of `run-in-roblox-`, the fixed token prefix.
pub open spec fn token_prefix() -> Seq<u8> {
    seq![114u8, 117u8, 110u8, 45u8, 105u8, 110u8, 45u8, 114u8, 111u8, 98u8, 108u8, 111u8, 120u8, 45u8]
}

fn token_prefix_bytes() -> (r: Vec<u8>)
    ensures
        r@ == token_prefix(),
{
    let mut v: Vec<u8> = Vec::new();
    v.push(114);  // r
    v.push(117);  // u
    v.push(110);  // n
    v.push(45);  // -
    v.push(105);  // i
    v.push(110);  // n
    v.push(45);  // -
    v.push(114);  // r
    v.push(111);  // o
    v.push(98);  // b
    v.push(108);  // l
    v.push(111);  // o
    v.push(120);  // x
    v.push(45);  // -
    proof {
        assert(v@ =~= token_prefix());
    }
    v
}

/// The session token for the 128-bit value `n`.
pub open spec fn token_view(n: u128) -> Seq<u8> {
    token_prefix() + hex_bytes(n)
}

/// Render the session token for `n`: the fixed prefix and `n`'s hex digits.
pub fn make_session_token(n: u128) -> (r: Vec<u8>)
    ensures
        r@ == token_view(n),
{
    let mut v = token_prefix_bytes();
    let mut h = render_hex(n);
    v.append(&mut h);
    v
}

/// Relies on `rand::random`: draws a value from the thread-local generator.
/// Nothing can be promised of the result.
pub assume_specification<T>[ rand::random::<T> ]() -> (r: T)
    where
        rand::distributions::Standard: rand::distributions::Distribution<T>,
;

/// A fresh session token: the fixed prefix and the hex digits of a random
/// 128-bit value. Which value came out is not promised — only that the token
/// is some well-formed token.
pub fn generate_session_token() -> (r: Vec<u8>)
    ensures
        exists|n: u128| r@ == token_view(n),
{
    let n: u128 = rand::random();
    make_session_token(n)
}

/// Exact, case-sensitive comparison of a presented token against the
/// configured one.
pub fn tokens_match(expected: &Vec<u8>, presented: &Vec<u8>) -> (r: bool)
    ensures
        r == (expected@ == presented@),
{
    bytes_eq(expected, presented)
}

} // verus!
