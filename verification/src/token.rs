//! Session tokens: the claims a token carries and the token a request
//! presents in its `Authorization` header.

use vstd::prelude::*;
use crate::text::{remove_all_from, all_visible_ascii, ascii_chars, ascii_to_chars, chars_of, is_visible_ascii, remove_all, remove_all_chars, string_of};

verus! {

/// How long a session token is valid, in seconds (eight hours).
pub const TOKEN_LIFETIME_SECONDS: i64 = 28800;

/// The claims of a session token: the user and the expiry (Unix seconds).
pub struct TokenClaims {
    pub sub: String,
    pub exp: usize,
}

/// The claims of a token issued to `username` at `now` (Unix seconds): it
/// expires eight hours later.
pub fn token_claims(username: &str, now: i64) -> (c: TokenClaims)
    requires
        now <= i64::MAX - TOKEN_LIFETIME_SECONDS,
    ensures
        c.sub@ == username@,
        c.exp == (now + TOKEN_LIFETIME_SECONDS) as usize,
{
    let sub = string_of(&chars_of(username));
    TokenClaims { sub, exp: (now + TOKEN_LIFETIME_SECONDS) as usize }
}

/// The token a request presents: the `Authorization` value as text (empty
/// when it is not visible ASCII), with every `Bearer ` in it removed; `None`
/// when there is no such header.
pub open spec fn presented_token(header: Option<Seq<u8>>) -> Option<Seq<char>> {
    match header {
        None => None,
        Some(b) => Some(
            if forall|i: int| 0 <= i < b.len() ==> is_visible_ascii(b[i]) {
                remove_all(ascii_chars(b), "Bearer "@)
            } else {
                Seq::empty()
            },
        ),
    }
}

/// Extracts the session token from the value of the `Authorization` header
/// (`None` when the request has none).
pub fn bearer_token(authorization: Option<&[u8]>) -> (r: Option<String>)
    ensures
        match r {
            Some(t) => presented_token(
                match authorization {
                    Some(b) => Some(b@),
                    None => None,
                },
            ) == Some(t@),
            None => authorization is None,
        },
{
    match authorization {
        None => None,
        Some(b) => {
            if all_visible_ascii(b) {
                let text = ascii_to_chars(b);
                let pattern = chars_of("Bearer ");
                let token = remove_all_chars(&text, &pattern);
                Some(string_of(&token))
            } else {
                let empty: Vec<char> = Vec::new();
                Some(string_of(&empty))
            }
        },
    }
}

/// `jsonwebtoken::errors::Error`: why a token could not be made or was
/// refused.
#[verifier::external_type_specification]
#[verifier::external_body]
pub struct ExJwtError(jsonwebtoken::errors::Error);

/// The HS256-signed token, with the default header, whose claims are the
/// object `{"exp": exp, "sub": sub}`, signed with `key`.
pub uninterp spec fn hs256_token(sub: Seq<char>, exp: usize, key: Seq<u8>) -> Seq<char>;

/// Whether `token`'s signature is the HMAC-SHA256 of its header and
/// payload under `key`.
pub uninterp spec fn hs256_signature_valid(token: Seq<char>, key: Seq<u8>) -> bool;

/// `jsonwebtoken::encode` with the default header (HS256), the claims
/// object `{"exp": exp, "sub": sub}` and `EncodingKey::from_secret(key)`.
/// The token is named; it depends on the three arguments alone. Its
/// signature is the HMAC-SHA256 of its header and payload under `key`,
/// which is what decoding checks. It always succeeds: an HMAC key matches
/// the HS256 header, such claims always serialise, and HMAC signing cannot
/// fail.
#[verifier::external_body]
fn jwt_encode(sub: &str, exp: usize, key: &[u8]) -> (r: Result<String, jsonwebtoken::errors::Error>)
    ensures
        r is Ok,
        r matches Ok(t) ==> t@ == hs256_token(sub@, exp, key@) && hs256_signature_valid(t@, key@),
{
    let mut claims = serde_json::Map::new();
    claims.insert("sub".to_string(), serde_json::Value::from(sub));
    claims.insert("exp".to_string(), serde_json::Value::from(exp));
    jsonwebtoken::encode(
        &jsonwebtoken::Header::default(),
        &claims,
        &jsonwebtoken::EncodingKey::from_secret(key),
    )
}

/// `jsonwebtoken::decode` of a claims object with `DecodingKey::from_secret(key)`
/// and the default validation (HS256, `exp` required and not past, with
/// the default leeway), handing back the `sub` claim if it is a string and
/// the `exp` claim if it is a non-negative integer. Success depends on the
/// clock, so it gets no name; it implies that the signature is valid and
/// that the token holds a `.` (it must have the dotted form
/// `header.payload.signature`; a token without a `.` is refused).
#[verifier::external_body]
fn jwt_decode(token: &str, key: &[u8]) -> (r: Result<(Option<String>, Option<u64>), jsonwebtoken::errors::Error>)
    ensures
        r is Ok ==> hs256_signature_valid(token@, key@) && has_dot(token@),
{
    jsonwebtoken::decode::<serde_json::Map<String, serde_json::Value>>(
        token,
        &jsonwebtoken::DecodingKey::from_secret(key),
        &jsonwebtoken::Validation::default(),
    ).map(|d| (d.claims.get("sub").and_then(|v| v.as_str()).map(|v| v.to_string()), d.claims.get("exp").and_then(|v| v.as_u64())))
}

/// A session token for `username` issued at `now` (Unix seconds), signed
/// with `key`: its claims are the user and an expiry eight hours later.
pub fn create_token(username: &str, now: i64, key: &[u8]) -> (t: String)
    requires
        now <= i64::MAX - TOKEN_LIFETIME_SECONDS,
    ensures
        t@ == hs256_token(username@, (now + TOKEN_LIFETIME_SECONDS) as usize, key@),
        hs256_signature_valid(t@, key@),
{
    let claims = token_claims(username, now);
    match jwt_encode(claims.sub.as_str(), claims.exp, key) {
        Ok(t) => t,
        Err(_) => {
            assert(false);
            String::new()
        },
    }
}

/// Whether `t` holds a `.`.
pub open spec fn has_dot(t: Seq<char>) -> bool {
    exists|i: int| 0 <= i < t.len() && t[i] == '.'
}

/// Whether the outcome of decoding a token is accepted: decoding succeeded,
/// the claims hold a string `sub`, and `exp` fits a `usize`.
pub open spec fn claims_accepted_spec(decoded: Result<(Option<String>, Option<u64>), ()>) -> bool {
    decoded matches Ok((Some(_), Some(e))) && e <= usize::MAX
}

/// The decision taken once a token has been decoded: accepted exactly when
/// decoding succeeded and the claims hold a string `sub` and an `exp` that
/// fits a `usize`.
pub fn claims_accepted(decoded: Result<(Option<String>, Option<u64>), ()>) -> (ok: bool)
    ensures
        ok == claims_accepted_spec(decoded),
{
    match decoded {
        Ok((Some(_), Some(exp))) => exp <= usize::MAX as u64,
        _ => false,
    }
}

/// The token that a request carrying `authorization` presents, as the
/// spec functions take it.
pub open spec fn presented(authorization: Option<&[u8]>) -> Option<Seq<char>> {
    presented_token(
        match authorization {
            Some(b) => Some(b@),
            None => None,
        },
    )
}

/// Whether a request carrying the `Authorization` header value
/// `authorization` presents a valid session token signed with `key`: one
/// whose signature verifies, which has not expired by the clock, and whose
/// claims hold a string `sub` and an `exp` that fits a `usize`. Without the
/// header, or with a value that is not visible ASCII (which presents the
/// empty token), the answer is `false`. What decoding answers depends on
/// the clock; the answer after decoding is `claims_accepted`.
pub fn verify_token(authorization: Option<&[u8]>, key: &[u8]) -> (ok: bool)
    ensures
        authorization is None ==> !ok,
        presented(authorization) == Some(Seq::<char>::empty()) ==> !ok,
        ok ==> (presented(authorization) matches Some(t) && hs256_signature_valid(t, key@)
            && has_dot(t)),
{
    let token = match bearer_token(authorization) {
        None => return false,
        Some(t) => t,
    };
    let decoded = match jwt_decode(token.as_str(), key) {
        Ok(claims) => Ok(claims),
        Err(_) => Err(()),
    };
    claims_accepted(decoded)
}

/// Whether `p` occurs anywhere in `t`.
pub open spec fn occurs_in(t: Seq<char>, p: Seq<char>) -> bool {
    exists|j: int| 0 <= j && j + p.len() <= t.len() && #[trigger] t.subrange(j, j + p.len()) == p
}

proof fn lemma_remove_shift(q: Seq<char>, t: Seq<char>, p: Seq<char>, i: int)
    requires
        0 <= i,
    ensures
        remove_all_from(q + t, p, q.len() + i) == remove_all_from(t, p, i),
    decreases t.len() - i,
{
    let s = q + t;
    if i < t.len() {
        if i + p.len() <= t.len() {
            assert(s.subrange(q.len() + i, q.len() + i + p.len()) =~= t.subrange(i, i + p.len()));
        }
        assert(s[q.len() + i] == t[i]);
        lemma_remove_shift(q, t, p, i + 1);
        if p.len() > 0 && i + p.len() <= t.len() {
            lemma_remove_shift(q, t, p, i + p.len());
        }
    }
}

proof fn lemma_remove_absent(t: Seq<char>, p: Seq<char>, i: int)
    requires
        0 <= i <= t.len(),
        p.len() > 0,
        !occurs_in(t, p),
    ensures
        remove_all_from(t, p, i) == t.skip(i),
    decreases t.len() - i,
{
    if i < t.len() {
        if i + p.len() <= t.len() {
            assert(t.subrange(i, i + p.len()) != p);
        }
        lemma_remove_absent(t, p, i + 1);
        assert(t.skip(i) =~= seq![t[i]] + t.skip(i + 1));
    } else {
        assert(t.skip(i) =~= Seq::<char>::empty());
    }
}

/// A header `Bearer <token>` presents exactly `<token>`, provided the token
/// itself does not contain `Bearer `.
pub proof fn law_bearer_prefix_removed(t: Seq<char>)
    requires
        !occurs_in(t, "Bearer "@),
    ensures
        remove_all("Bearer "@ + t, "Bearer "@) == t,
{
    reveal_strlit("Bearer ");
    let p = "Bearer "@;
    let s = p + t;
    assert(s.subrange(0, p.len() as int) =~= p);
    lemma_remove_shift(p, t, p, 0);
    lemma_remove_absent(t, p, 0);
    assert(t.skip(0) =~= t);
}

} // verus!
