//! The first factor: HTTP Basic credentials checked against the system's
//! shadow password file.

use vstd::prelude::*;
use vstd::utf8::{decode_utf8, valid_utf8, encode_utf8};
use base64::Engine;
use crate::replies::AuthError;
use crate::text::{
    all_visible_ascii, chars_of, find_char, find_from, is_visible_ascii, law_split_once_reassembles,
    lemma_find_from, split_once, split_once_chars, string_of, sub_chars,
};

verus! {

/// What the standard Base64 alphabet, with padding, decodes `input` to, or
/// `None` where it is not valid Base64.
pub uninterp spec fn base64_standard_decode(input: Seq<u8>) -> Option<Seq<u8>>;

/// Whether yescrypt accepts `password` for the crypt(3)-style `hash`.
pub uninterp spec fn yescrypt_accepts(password: Seq<u8>, hash: Seq<char>) -> bool;

/// `base64::DecodeError`: why input is not valid Base64.
#[verifier::external_type_specification]
#[verifier::external_body]
pub struct ExDecodeError(base64::DecodeError);

/// `std::string::FromUtf8Error`: bytes that are not well-formed UTF-8.
#[verifier::external_type_specification]
#[verifier::external_body]
pub struct ExFromUtf8Error(std::string::FromUtf8Error);

/// `password_hash::Error`: why a password hash was not accepted.
#[verifier::external_type_specification]
#[verifier::external_body]
pub struct ExPasswordHashError(yescrypt::password_hash::Error);

/// `base64::engine::general_purpose::STANDARD.decode`: decodes standard,
/// padded Base64. The contract names the result; it depends on the input
/// alone.
#[verifier::external_body]
fn decode_base64(input: &[u8]) -> (r: Result<Vec<u8>, base64::DecodeError>)
    ensures
        match r {
            Ok(v) => base64_standard_decode(input@) == Some(v@),
            Err(_) => base64_standard_decode(input@) is None,
        },
{
    base64::engine::general_purpose::STANDARD.decode(input)
}

/// `String::from_utf8`: succeeds exactly on well-formed UTF-8, and then holds
/// the decoded characters.
#[verifier::external_body]
fn utf8_string(bytes: Vec<u8>) -> (r: Result<String, std::string::FromUtf8Error>)
    ensures
        r is Ok <==> valid_utf8(bytes@),
        r matches Ok(s) ==> s@ == decode_utf8(bytes@),
{
    String::from_utf8(bytes)
}

/// `Yescrypt::default().verify_password(password, hash)` with the hash as a
/// string (the `PasswordVerifier<str>` impl, which parses the hash and then
/// checks the password). The contract names whether it succeeds, a function
/// of the two arguments, and states that only hashes beginning `$y$` are
/// accepted: the hash must start with `$`, its identifier (up to the next
/// `$`) must be `y`, and a parameter field must follow. It does not state
/// that a hash with extreme cost parameters may exhaust memory.
#[verifier::external_body]
fn yescrypt_verify(password: &[u8], hash: &str) -> (r: Result<(), yescrypt::password_hash::Error>)
    ensures
        r is Ok == yescrypt_accepts(password@, hash@),
        r is Ok ==> is_yescrypt_hash(hash@),
{
    yescrypt::PasswordVerifier::<str>::verify_password(&yescrypt::Yescrypt::default(), password, hash)
}

/// Whether `hash` begins `$y$`, as every hash yescrypt accepts does.
pub open spec fn is_yescrypt_hash(hash: Seq<char>) -> bool {
    hash.len() >= 3 && hash[0] == '$' && hash[1] == 'y' && hash[2] == '$'
}

/// The bytes of `Basic ` that open a Basic `Authorization` header.
pub open spec fn basic_prefix() -> Seq<u8> {
    seq![66u8, 97u8, 115u8, 105u8, 99u8, 32u8]
}

/// The user name and password carried by an `Authorization` header value:
/// the value must be visible ASCII, start with `Basic `, and the rest must
/// be Base64 of UTF-8 text holding a `:`; the text splits at its first `:`.
pub open spec fn basic_credentials(header: Option<Seq<u8>>) -> Option<(Seq<char>, Seq<char>)> {
    match header {
        None => None,
        Some(b) => if (forall|i: int| 0 <= i < b.len() ==> is_visible_ascii(b[i])) && b.len() >= 6
            && b.take(6) == basic_prefix() {
            match base64_standard_decode(b.skip(6)) {
                None => None,
                Some(d) => if valid_utf8(d) {
                    split_once(decode_utf8(d), ':')
                } else {
                    None
                },
            }
        } else {
            None
        },
    }
}

fn bytes_from(b: &[u8], start: usize) -> (r: Vec<u8>)
    requires
        start <= b@.len(),
    ensures
        r@ == b@.skip(start as int),
{
    let mut r: Vec<u8> = Vec::new();
    let mut i = start;
    while i < b.len()
        invariant
            start <= i <= b@.len(),
            r@ == b@.subrange(start as int, i as int),
        decreases b.len() - i,
    {
        r.push(b[i]);
        i = i + 1;
        assert(r@ =~= b@.subrange(start as int, i as int));
    }
    assert(b@.subrange(start as int, i as int) =~= b@.skip(start as int));
    r
}

fn has_basic_prefix(b: &[u8]) -> (r: bool)
    ensures
        r == (b@.len() >= 6 && b@.take(6) == basic_prefix()),
{
    if b.len() < 6 {
        return false;
    }
    let ok = b[0] == 66 && b[1] == 97 && b[2] == 115 && b[3] == 105 && b[4] == 99 && b[5] == 32;
    if ok {
        assert(b@.take(6) =~= basic_prefix());
    } else {
        assert(b@.take(6)[0] != 66u8 || b@.take(6)[1] != 97u8 || b@.take(6)[2] != 115u8 || b@.take(6)[3]
            != 105u8 || b@.take(6)[4] != 99u8 || b@.take(6)[5] != 32u8);
    }
    ok
}

/// Reads the user name and password out of the value of an HTTP
/// `Authorization` header (`None` when the request has none).
pub fn decode_basic_auth(authorization: Option<&[u8]>) -> (r: Option<(String, String)>)
    ensures
        match r {
            Some((user, password)) => basic_credentials(
                match authorization {
                    Some(b) => Some(b@),
                    None => None,
                },
            ) == Some((user@, password@)),
            None => basic_credentials(
                match authorization {
                    Some(b) => Some(b@),
                    None => None,
                },
            ) is None,
        },
{
    let b = match authorization {
        None => return None,
        Some(b) => b,
    };
    if !all_visible_ascii(b) || !has_basic_prefix(b) {
        return None;
    }
    let encoded = bytes_from(b, 6);
    let decoded = match decode_base64(encoded.as_slice()) {
        Err(_) => return None,
        Ok(d) => d,
    };
    credentials_from_bytes(decoded)
}

/// The user name and password in decoded Basic credentials: the bytes must
/// be UTF-8 text holding a `:`, which splits at its first `:`.
pub open spec fn credentials_in(bytes: Seq<u8>) -> Option<(Seq<char>, Seq<char>)> {
    if valid_utf8(bytes) {
        split_once(decode_utf8(bytes), ':')
    } else {
        None
    }
}

/// Reads the user name and password out of decoded Basic credentials.
pub fn credentials_from_bytes(bytes: Vec<u8>) -> (r: Option<(String, String)>)
    ensures
        match r {
            Some((user, password)) => credentials_in(bytes@) == Some((user@, password@)),
            None => credentials_in(bytes@) is None,
        },
{
    let text = match utf8_string(bytes) {
        Err(_) => return None,
        Ok(s) => s,
    };
    let chars = chars_of(text.as_str());
    match split_once_chars(&chars, ':') {
        None => None,
        Some((user, password)) => Some((string_of(&user), string_of(&password))),
    }
}

/// A line of `str::lines` without a `\r` that ended it before the `\n`.
pub open spec fn strip_cr(l: Seq<char>) -> Seq<char> {
    if l.len() > 0 && l.last() == '\r' {
        l.drop_last()
    } else {
        l
    }
}

/// `str::lines` of `s` from position `start`: split at `\n`, a `\r` before
/// the `\n` dropped, and no empty line after a final `\n`.
pub open spec fn lines_from(s: Seq<char>, start: int) -> Seq<Seq<char>>
    decreases s.len() - start,
{
    if start < 0 || start >= s.len() {
        Seq::empty()
    } else {
        let k = find_from(s, '\n', start);
        if k < 0 {
            seq![s.subrange(start, s.len() as int)]
        } else {
            proof {
                lemma_find_from(s, '\n', start);
            }
            seq![strip_cr(s.subrange(start, k))] + lines_from(s, k + 1)
        }
    }
}

/// The first two `:`-separated fields of a shadow line, when it has at
/// least two.
pub open spec fn shadow_fields(line: Seq<char>) -> Option<(Seq<char>, Seq<char>)> {
    match split_once(line, ':') {
        None => None,
        Some((name, rest)) => Some(
            (
                name,
                match split_once(rest, ':') {
                    None => rest,
                    Some((hash, _)) => hash,
                },
            ),
        ),
    }
}

/// The hash field of the first line that names `user`.
pub open spec fn shadow_lookup(lines: Seq<Seq<char>>, user: Seq<char>) -> Option<Seq<char>>
    decreases lines.len(),
{
    if lines.len() == 0 {
        None
    } else {
        match shadow_fields(lines[0]) {
            Some((name, hash)) => if name == user {
                Some(hash)
            } else {
                shadow_lookup(lines.drop_first(), user)
            },
            None => shadow_lookup(lines.drop_first(), user),
        }
    }
}

/// The lookup takes the first line whose first field equals the user name
/// exactly. A line whose first field is another name (a proper prefix of
/// the user name included) or that has no `:` at all is skipped; a line
/// naming the user answers with its hash field.
pub proof fn law_shadow_lookup_first_exact_name(l: Seq<char>, rest: Seq<Seq<char>>, user: Seq<char>)
    ensures
        shadow_lookup(seq![l] + rest, user) == match shadow_fields(l) {
            Some((n, h)) => if n == user {
                Some(h)
            } else {
                shadow_lookup(rest, user)
            },
            None => shadow_lookup(rest, user),
        },
        !l.contains(':') ==> shadow_fields(l) is None,
{
    let s = seq![l] + rest;
    assert(s[0] == l);
    assert(s.drop_first() =~= rest);
    law_split_once_reassembles(l, ':');
}

/// Whether `line` is a shadow entry for `user` with the hash field `h`:
/// it is the name, a `:` and `h`, followed by nothing or by a `:`.
pub open spec fn entry_line(line: Seq<char>, user: Seq<char>, h: Seq<char>) -> bool {
    let k: int = (user.len() + 1 + h.len()) as int;
    &&& line.len() >= k
    &&& line.take(k) == user + seq![':'] + h
    &&& (line.len() == k || line[k] == ':')
}

/// What a lookup finds is written on one of the lines: that line is the
/// user name, a `:`, the hash (which holds no `:`), and then nothing or a
/// further `:`.
pub proof fn law_shadow_lookup_found(lines: Seq<Seq<char>>, user: Seq<char>)
    ensures
        shadow_lookup(lines, user) matches Some(h) ==> !h.contains(':') && exists|i: int|
            0 <= i < lines.len() && #[trigger] entry_line(lines[i], user, h),
    decreases lines.len(),
{
    if lines.len() > 0 {
        let l = lines[0];
        law_shadow_lookup_found(lines.drop_first(), user);
        law_split_once_reassembles(l, ':');
        let found_later = match split_once(l, ':') {
            None => true,
            Some((name, _)) => name != user,
        };
        if found_later {
            if let Some(h) = shadow_lookup(lines, user) {
                let i = choose|i: int|
                    0 <= i < lines.drop_first().len() && #[trigger] entry_line(lines.drop_first()[i], user, h);
                assert(lines[i + 1] == lines.drop_first()[i]);
            }
        } else {
            let (name, rest) = split_once(l, ':')->Some_0;
            law_split_once_reassembles(rest, ':');
            let k: int = (user.len() + 1) as int;
            match split_once(rest, ':') {
                None => {
                    assert(l =~= user + seq![':'] + rest);
                    assert(l.take(k + rest.len()) =~= user + seq![':'] + rest);
                    assert(entry_line(lines[0], user, rest));
                },
                Some((hash, tail)) => {
                    assert(l =~= user + seq![':'] + hash + seq![':'] + tail);
                    assert(l.take(k + hash.len()) =~= user + seq![':'] + hash);
                    assert(l[k + hash.len()] == ':');
                    assert(entry_line(lines[0], user, hash));
                },
            }
        }
    }
}

fn chars_equal(a: &Vec<char>, b: &Vec<char>) -> (r: bool)
    ensures
        r == (a@ == b@),
{
    if a.len() != b.len() {
        return false;
    }
    let mut i: usize = 0;
    while i < a.len()
        invariant
            a@.len() == b@.len(),
            i <= a@.len(),
            forall|k: int| 0 <= k < i ==> a@[k] == b@[k],
        decreases a.len() - i,
    {
        if a[i] != b[i] {
            return false;
        }
        i = i + 1;
    }
    assert(a@ =~= b@);
    true
}

fn shadow_line_fields(line: &Vec<char>) -> (r: Option<(Vec<char>, Vec<char>)>)
    ensures
        match r {
            Some((n, h)) => shadow_fields(line@) == Some((n@, h@)),
            None => shadow_fields(line@) is None,
        },
{
    match split_once_chars(line, ':') {
        None => None,
        Some((name, rest)) => match split_once_chars(&rest, ':') {
            None => Some((name, rest)),
            Some((hash, _)) => Some((name, hash)),
        },
    }
}

/// The password hash that the shadow file `shadow` records for `username`:
/// the second field of the first line whose first field is the name.
pub fn shadow_hash_for(shadow: &str, username: &str) -> (r: Option<String>)
    ensures
        match r {
            Some(h) => shadow_lookup(lines_from(shadow@, 0), username@) == Some(h@),
            None => shadow_lookup(lines_from(shadow@, 0), username@) is None,
        },
{
    let s = chars_of(shadow);
    let user = chars_of(username);
    let n = s.len();
    let mut start: usize = 0;
    while start < n
        invariant
            n == s@.len(),
            s@ == shadow@,
            user@ == username@,
            shadow_lookup(lines_from(s@, 0), user@) == shadow_lookup(lines_from(s@, start as int), user@),
        decreases n - start,
    {
        let ghost rest_lines = lines_from(s@, start as int);
        let (end, next) = match find_char(&s, '\n', start) {
            None => (n, n),
            Some(k) => {
                proof {
                    lemma_find_from(s@, '\n', start as int);
                }
                (k, k + 1)
            },
        };
        let raw = sub_chars(&s, start, end);
        let line = if next > end && raw.len() > 0 && raw[raw.len() - 1] == '\r' {
            sub_chars(&raw, 0, raw.len() - 1)
        } else {
            raw
        };
        proof {
            if next > end {
                assert(line@ == strip_cr(s@.subrange(start as int, end as int))) by {
                    if raw@.len() > 0 && raw@.last() == '\r' {
                        assert(line@ =~= raw@.drop_last());
                    }
                }
                assert(rest_lines == seq![line@] + lines_from(s@, next as int));
            } else {
                assert(rest_lines == seq![line@]);
                assert(lines_from(s@, next as int) =~= Seq::<Seq<char>>::empty());
            }
            assert(rest_lines[0] == line@);
            assert(rest_lines.drop_first() =~= lines_from(s@, next as int));
        }
        match shadow_line_fields(&line) {
            Some((name, hash)) => {
                if chars_equal(&name, &user) {
                    return Some(string_of(&hash));
                }
            },
            None => {},
        }
        start = next;
    }
    None
}

/// `true` when yescrypt accepts `password` for the shadow `hash`.
pub fn verify_shadow_hash(password: &str, hash: &str) -> (ok: bool)
    ensures
        ok == yescrypt_accepts(encode_utf8(password@), hash@),
        ok ==> is_yescrypt_hash(hash@),
{
    match yescrypt_verify(password.as_bytes(), hash) {
        Ok(()) => true,
        Err(_) => false,
    }
}

/// Whether the shadow file's contents (`None` when it could not be read)
/// record a hash for `user` that yescrypt accepts `password` for.
pub open spec fn password_accepted(shadow: Option<Seq<char>>, user: Seq<char>, password: Seq<char>) -> bool {
    match shadow {
        None => false,
        Some(content) => match shadow_lookup(lines_from(content, 0), user) {
            None => false,
            Some(hash) => yescrypt_accepts(encode_utf8(password), hash),
        },
    }
}

/// Whether the password is right for `username` according to the shadow
/// file's contents (`None` when the file could not be read).
pub fn verify_password(shadow: Option<&str>, username: &str, password: &str) -> (ok: bool)
    ensures
        ok == password_accepted(
            match shadow {
                Some(c) => Some(c@),
                None => None,
            },
            username@,
            password@,
        ),
        ok ==> (shadow matches Some(content) && shadow_lookup(lines_from(content@, 0), username@)
            matches Some(hash) && is_yescrypt_hash(hash)),
{
    match shadow {
        None => false,
        Some(content) => match shadow_hash_for(content, username) {
            None => false,
            Some(hash) => verify_shadow_hash(password, hash.as_str()),
        },
    }
}

/// The first factor of a login or an enrollment: Basic credentials are
/// required, and their password must be accepted for their user.
pub open spec fn password_step(
    credentials: Option<(Seq<char>, Seq<char>)>,
    shadow: Option<Seq<char>>,
) -> Result<Seq<char>, AuthError> {
    match credentials {
        None => Err(AuthError::MissingAuthorization),
        Some((user, password)) => if password_accepted(shadow, user, password) {
            Ok(user)
        } else {
            Err(AuthError::InvalidCredentials)
        },
    }
}

/// Whether some Basic credentials and shadow file approve `user` in the
/// password step.
pub open spec fn password_approved(user: Seq<char>) -> bool {
    exists|basic: Option<(Seq<char>, Seq<char>)>, shadow: Option<Seq<char>>|
        password_step(basic, shadow) == Ok::<Seq<char>, AuthError>(user)
}

/// A user whose password the password step accepted. Only
/// `check_password` makes one, and it keeps the credentials and shadow file
/// it was approved with.
pub struct ApprovedUser {
    name: String,
    basic: Ghost<Option<(Seq<char>, Seq<char>)>>,
    shadow: Ghost<Option<Seq<char>>>,
}

impl ApprovedUser {
    #[verifier::type_invariant]
    spec fn approved(self) -> bool {
        password_step(self.basic@, self.shadow@) == Ok::<Seq<char>, AuthError>(self.name@)
    }

    /// The user's name.
    pub closed spec fn user(self) -> Seq<char> {
        self.name@
    }

    /// The user's name.
    pub fn name(&self) -> (r: &str)
        ensures
            r@ == self.user(),
            password_approved(r@),
    {
        proof {
            use_type_invariant(self);
        }
        self.name.as_str()
    }

    /// The user's name, as a new string.
    pub fn name_string(&self) -> (r: String)
        ensures
            r@ == self.user(),
            password_approved(r@),
    {
        proof {
            use_type_invariant(self);
        }
        self.name.clone()
    }
}

/// The view of decoded Basic credentials.
pub open spec fn basic_view(credentials: Option<(String, String)>) -> Option<(Seq<char>, Seq<char>)> {
    match credentials {
        Some((u, p)) => Some((u@, p@)),
        None => None,
    }
}

/// Decides the first factor from the decoded Basic credentials and the
/// shadow file's contents: the user, when the password is right.
pub fn check_password(credentials: Option<(String, String)>, shadow: Option<&str>) -> (r: Result<
    ApprovedUser,
    AuthError,
>)
    ensures
        match r {
            Ok(a) => password_step(
                basic_view(credentials),
                match shadow {
                    Some(c) => Some(c@),
                    None => None,
                },
            ) == Ok::<Seq<char>, AuthError>(a.user()),
            Err(e) => password_step(
                basic_view(credentials),
                match shadow {
                    Some(c) => Some(c@),
                    None => None,
                },
            ) == Err::<Seq<char>, AuthError>(e),
        },
{
    let ghost basic = basic_view(credentials);
    let ghost file = match shadow {
        Some(c) => Some(c@),
        None => None,
    };
    match credentials {
        None => Err(AuthError::MissingAuthorization),
        Some((username, password)) => {
            if verify_password(shadow, username.as_str(), password.as_str()) {
                Ok(ApprovedUser { name: username, basic: Ghost(basic), shadow: Ghost(file) })
            } else {
                Err(AuthError::InvalidCredentials)
            }
        },
    }
}

/// Basic credentials are the decoded text split at its first `:`: the user
/// name never holds a `:`, and the name, a `:` and the password make up the
/// whole decoded text.
pub proof fn law_basic_credentials_split(header: Seq<u8>)
    ensures
        basic_credentials(Some(header)) matches Some((user, password)) ==> ({
            let d = base64_standard_decode(header.skip(6))->Some_0;
            &&& !user.contains(':')
            &&& decode_utf8(d) == user + seq![':'] + password
        }),
{
    if let Some(d) = base64_standard_decode(header.skip(6)) {
        law_split_once_reassembles(decode_utf8(d), ':');
    }
}

} // verus!
