//! The signing secret's file: `<unix seconds>:<secret>`, rotated once it is
//! a week old.

use vstd::prelude::*;
use crate::digits::{decimal, decimal_chars, hex_digits, is_digit, lemma_decimal, law_decimal_parses_back, parse_u64, parse_u64_chars};
use crate::session::token_text;
use crate::text::{chars_of, is_whitespace, lemma_find_from_at, split_once, split_once_chars, string_of, trim, trim_chars, trim_end, trim_start};

verus! {

/// Days after which the signing secret is replaced.
pub const ROTATION_DAYS: u64 = 7;

/// Seconds after which the signing secret is replaced.
pub const ROTATION_SECONDS: u64 = 604800;

/// `now - then` on `u64`, wrapping around as unchecked release arithmetic
/// does when `then` is later than `now`.
pub open spec fn wrapping_diff(now: u64, then: u64) -> nat {
    if now >= then {
        (now - then) as nat
    } else {
        (now - then + 0x1_0000_0000_0000_0000) as nat
    }
}

/// The creation time and secret recorded in the file `contents`: the
/// trimmed text split at its first `:`, the part before being a `u64`.
pub open spec fn secret_record(contents: Seq<char>) -> Option<(u64, Seq<char>)> {
    match split_once(trim(contents), ':') {
        None => None,
        Some((stamp, secret)) => match parse_u64(stamp) {
            None => None,
            Some(t) => Some((t, secret)),
        },
    }
}

/// The secret recorded in the file `contents`, provided the file parses and
/// the secret is less than the rotation period old at `now`.
pub open spec fn stored_secret(contents: Seq<char>, now: u64) -> Option<Seq<char>> {
    match secret_record(contents) {
        None => None,
        Some((t, secret)) => if wrapping_diff(now, t) < ROTATION_SECONDS {
            Some(secret)
        } else {
            None
        },
    }
}

/// What the secret file says at a given time.
pub enum SecretFile {
    /// The recorded secret, still in force.
    Fresh(String),
    /// A secret is recorded, but it has reached the rotation period.
    Expired,
    /// The file does not hold a time stamp and a secret.
    Malformed,
}

/// What the secret file holds for `secret` created at `now`.
pub open spec fn secret_file_text(now: u64, secret: Seq<char>) -> Seq<char> {
    decimal(now as nat) + seq![':'] + secret
}

/// Reads the secret file `contents` at `now` (Unix seconds).
pub fn read_secret_file(contents: &str, now: u64) -> (r: SecretFile)
    ensures
        match r {
            SecretFile::Fresh(s) => stored_secret(contents@, now) == Some(s@),
            SecretFile::Expired => secret_record(contents@) is Some && stored_secret(
                contents@,
                now,
            ) is None,
            SecretFile::Malformed => secret_record(contents@) is None,
        },
{
    let all = chars_of(contents);
    let trimmed = trim_chars(&all);
    match split_once_chars(&trimmed, ':') {
        None => SecretFile::Malformed,
        Some((stamp, secret)) => match parse_u64_chars(&stamp) {
            None => SecretFile::Malformed,
            Some(t) => {
                let age = now.wrapping_sub(t);
                assert(age == wrapping_diff(now, t));
                if age < ROTATION_SECONDS {
                    SecretFile::Fresh(string_of(&secret))
                } else {
                    SecretFile::Expired
                }
            },
        },
    }
}

/// The secret kept in the file `contents`, when it is still in force at
/// `now` (Unix seconds).
pub fn fresh_secret(contents: &str, now: u64) -> (r: Option<String>)
    ensures
        match r {
            Some(s) => stored_secret(contents@, now) == Some(s@),
            None => stored_secret(contents@, now) is None,
        },
{
    match read_secret_file(contents, now) {
        SecretFile::Fresh(s) => Some(s),
        _ => None,
    }
}

/// The text to store for `secret` created at `now` (Unix seconds).
pub fn secret_file_contents(now: u64, secret: &str) -> (r: String)
    ensures
        r@ == secret_file_text(now, secret@),
{
    let mut v = decimal_chars(now);
    v.push(':');
    let mut rest = chars_of(secret);
    v.append(&mut rest);
    string_of(&v)
}

proof fn lemma_read_secret_file(written: u64, secret: Seq<char>)
    requires
        secret.len() == 0 || !is_whitespace(secret.last()),
    ensures
        split_once(trim(secret_file_text(written, secret)), ':') == Some((decimal(written as nat), secret)),
        parse_u64(decimal(written as nat)) == Some(written),
{
    let d = decimal(written as nat);
    let text = secret_file_text(written, secret);
    lemma_decimal(written as nat);
    law_decimal_parses_back(written);
    assert(text[0] == d[0]);
    assert(is_digit(d[0]));
    assert(trim_start(text) == text);
    if secret.len() > 0 {
        assert(text.last() == secret.last());
    } else {
        assert(text.last() == ':');
    }
    assert(trim_end(text) == text);
    assert forall|j: int| 0 <= j < d.len() implies text[j] != ':' by {
        assert(text[j] == d[j]);
        assert(is_digit(d[j]));
    }
    assert(text[d.len() as int] == ':');
    lemma_find_from_at(text, ':', 0, d.len() as int);
    assert(text.take(d.len() as int) =~= d);
    assert(text.skip(d.len() as int + 1) =~= secret);
}

/// A secret that does not end in whitespace, written at `written`, is read
/// back unchanged at any time before the rotation period has passed.
pub proof fn law_secret_read_back(written: u64, now: u64, secret: Seq<char>)
    requires
        written <= now,
        now - written < ROTATION_SECONDS,
        secret.len() == 0 || !is_whitespace(secret.last()),
    ensures
        stored_secret(secret_file_text(written, secret), now) == Some(secret),
{
    lemma_read_secret_file(written, secret);
}

/// Once the rotation period has passed, the stored secret is no longer
/// used.
pub proof fn law_secret_expires(written: u64, now: u64, secret: Seq<char>)
    requires
        written <= now,
        now - written >= ROTATION_SECONDS,
        secret.len() == 0 || !is_whitespace(secret.last()),
    ensures
        stored_secret(secret_file_text(written, secret), now) is None,
{
    lemma_read_secret_file(written, secret);
}

/// A generated secret never ends in whitespace, so what was stored is what
/// is read back during the rotation period.
pub proof fn law_generated_secret_read_back(a: u64, b: u64, written: u64, now: u64)
    requires
        written <= now,
        now - written < ROTATION_SECONDS,
    ensures
        stored_secret(secret_file_text(written, token_text(a, b)), now) == Some(token_text(a, b)),
{
    let t = token_text(a, b);
    let last = hex_digits(b as nat, 16).last();
    assert(t.last() == last);
    let dd = (b % 16) as nat;
    assert(last == crate::digits::hex_char(dd));
    if dd < 10 {
        assert(((48 + dd) as char) as u32 == 48 + dd);
    } else {
        assert(((87 + dd) as char) as u32 == 87 + dd);
    }
    law_secret_read_back(written, now, t);
}

} // verus!
