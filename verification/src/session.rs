//! Random identifiers: WebAuthn session ids and JWT signing secrets are
//! both two random `u64`s written as 32 lowercase hexadecimal digits.

use vstd::prelude::*;
use crate::digits::{hex_digits, hex_chars, hex_value, lemma_hex_digits, lemma_pow16_16};
use crate::text::string_of;

verus! {

/// A uniformly random `u64` from the thread-local generator
/// (`rand::random::<u64>()`). Nothing is promised of the value.
#[verifier::external_body]
fn random_u64() -> u64 {
    rand::random::<u64>()
}

/// The text of an identifier made of the two numbers `a` and `b`
/// (`format!("{:016x}{:016x}", a, b)`).
pub open spec fn token_text(a: u64, b: u64) -> Seq<char> {
    hex_digits(a as nat, 16) + hex_digits(b as nat, 16)
}

/// Whether `s` is the text of some identifier.
pub open spec fn is_token(s: Seq<char>) -> bool {
    exists|a: u64, b: u64| s == token_text(a, b)
}

/// Writes the identifier made of `a` and `b`.
pub fn hex_token(a: u64, b: u64) -> (s: String)
    ensures
        s@ == token_text(a, b),
{
    let mut v = hex_chars(a, 16);
    let mut w = hex_chars(b, 16);
    v.append(&mut w);
    string_of(&v)
}

/// A fresh identifier made of two random numbers.
fn random_token() -> (s: String)
    ensures
        is_token(s@),
{
    let a = random_u64();
    let b = random_u64();
    let s = hex_token(a, b);
    assert(s@ == token_text(a, b));
    s
}

/// A fresh session id for a pending WebAuthn challenge.
pub fn generate_session_id() -> (s: String)
    ensures
        is_token(s@),
{
    random_token()
}

/// A fresh secret for signing session tokens.
pub fn generate_secret() -> (s: String)
    ensures
        is_token(s@),
{
    random_token()
}

/// An identifier is 32 characters long, and different pairs of numbers
/// give different identifiers: the text determines both numbers.
pub proof fn law_token_text_injective(a: u64, b: u64, c: u64, d: u64)
    ensures
        token_text(a, b).len() == 32,
        token_text(a, b) == token_text(c, d) ==> a == c && b == d,
{
    lemma_hex_digits(a as nat, 16);
    lemma_hex_digits(b as nat, 16);
    lemma_hex_digits(c as nat, 16);
    lemma_hex_digits(d as nat, 16);
    lemma_pow16_16();
    if token_text(a, b) == token_text(c, d) {
        let t = token_text(a, b);
        assert(t.subrange(0, 16) =~= hex_digits(a as nat, 16));
        assert(token_text(c, d).subrange(0, 16) =~= hex_digits(c as nat, 16));
        assert(t.subrange(16, 32) =~= hex_digits(b as nat, 16));
        assert(token_text(c, d).subrange(16, 32) =~= hex_digits(d as nat, 16));
        assert(hex_value(hex_digits(a as nat, 16)) == hex_value(hex_digits(c as nat, 16)));
        assert(hex_value(hex_digits(b as nat, 16)) == hex_value(hex_digits(d as nat, 16)));
    }
}

} // verus!
