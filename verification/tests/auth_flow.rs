use server_dash_api::credentials::{check_password, credentials_from_bytes, decode_basic_auth, shadow_hash_for, verify_password, verify_shadow_hash};
use server_dash_api::pending::PendingStore;
use server_dash_api::replies::AuthError;
use server_dash_api::token::{bearer_token, claims_accepted, create_token, token_claims, verify_token, TokenClaims, TOKEN_LIFETIME_SECONDS};

const EXAMPLE_HASH: &str = "$y$j0/$LdJM$k7BXzSDuoGHW56SY3HxROCiA0gWRscZe2aA0q5oHPM0";
const EXAMPLE_PASSWORD: &str = "pleaseletmein";

fn pair(user: &str, password: &str) -> Option<(String, String)> {
    Some((user.to_string(), password.to_string()))
}

#[test]
fn basic_auth_decodes_user_and_password() {
    assert_eq!(decode_basic_auth(Some(b"Basic dXNlcjpwYXNz")), pair("user", "pass"));
}

#[test]
fn basic_auth_splits_at_first_colon() {
    // "admin:p:a:ss"
    assert_eq!(decode_basic_auth(Some(b"Basic YWRtaW46cDphOnNz")), pair("admin", "p:a:ss"));
}

#[test]
fn basic_auth_empty_fields() {
    // ":"
    assert_eq!(decode_basic_auth(Some(b"Basic Og==")), pair("", ""));
}

#[test]
fn basic_auth_missing_header() {
    assert_eq!(decode_basic_auth(None), None);
}

#[test]
fn basic_auth_wrong_scheme() {
    assert_eq!(decode_basic_auth(Some(b"Bearer dXNlcjpwYXNz")), None);
    assert_eq!(decode_basic_auth(Some(b"basic dXNlcjpwYXNz")), None);
    assert_eq!(decode_basic_auth(Some(b"Basic")), None);
}

#[test]
fn basic_auth_invalid_base64() {
    assert_eq!(decode_basic_auth(Some(b"Basic !!!")), None);
    // unpadded input is refused by the padded standard engine
    assert_eq!(decode_basic_auth(Some(b"Basic Og")), None);
}

#[test]
fn basic_auth_without_colon() {
    // "userpass"
    assert_eq!(decode_basic_auth(Some(b"Basic dXNlcnBhc3M=")), None);
}

#[test]
fn basic_auth_not_utf8() {
    // a single 0xff byte
    assert_eq!(decode_basic_auth(Some(b"Basic /w==")), None);
}

#[test]
fn basic_auth_header_not_visible_ascii() {
    assert_eq!(decode_basic_auth(Some(b"Basic dXNlcjpwYXNz\x01")), None);
    assert_eq!(decode_basic_auth(Some("Basic d\u{e9}".as_bytes())), None);
}

#[test]
fn basic_auth_utf8_credentials() {
    // "jos\u{e9}:h\u{fc}ter"
    let encoded = "Basic am9zw6k6aMO8dGVy";
    assert_eq!(decode_basic_auth(Some(encoded.as_bytes())), pair("jos\u{e9}", "h\u{fc}ter"));
}

const SHADOW: &str = "root:!:19000:0:99999:7:::\r\nnobody\nalice:$y$abc:19001::\nbob:hashb\nalice:second:1\n";

#[test]
fn shadow_lookup_finds_first_entry() {
    assert_eq!(shadow_hash_for(SHADOW, "alice"), Some("$y$abc".to_string()));
    assert_eq!(shadow_hash_for(SHADOW, "root"), Some("!".to_string()));
}

#[test]
fn shadow_lookup_last_field_and_missing() {
    assert_eq!(shadow_hash_for(SHADOW, "bob"), Some("hashb".to_string()));
    assert_eq!(shadow_hash_for(SHADOW, "nobody"), None);
    assert_eq!(shadow_hash_for(SHADOW, "carol"), None);
    assert_eq!(shadow_hash_for("", "root"), None);
}

#[test]
fn shadow_lookup_line_endings() {
    assert_eq!(shadow_hash_for("u:h\r\n", "u"), Some("h".to_string()));
    assert_eq!(shadow_hash_for("u:h\r", "u"), Some("h\r".to_string()));
    assert_eq!(shadow_hash_for("x:1\n\nu:2", "u"), Some("2".to_string()));
}

#[test]
fn yescrypt_accepts_right_password() {
    assert!(verify_shadow_hash(EXAMPLE_PASSWORD, EXAMPLE_HASH));
}

#[test]
fn yescrypt_rejects_wrong_password_and_bad_hash() {
    assert!(!verify_shadow_hash("pleaseletmeout", EXAMPLE_HASH));
    assert!(!verify_shadow_hash(EXAMPLE_PASSWORD, "!"));
    assert!(!verify_shadow_hash(EXAMPLE_PASSWORD, ""));
}

#[test]
fn password_checked_against_shadow() {
    let shadow = format!("root:!:1::\nalice:{}:19001:0:99999:7:::\n", EXAMPLE_HASH);
    assert!(verify_password(Some(&shadow), "alice", EXAMPLE_PASSWORD));
    assert!(!verify_password(Some(&shadow), "alice", "wrong"));
    assert!(!verify_password(Some(&shadow), "root", EXAMPLE_PASSWORD));
    assert!(!verify_password(Some(&shadow), "carol", EXAMPLE_PASSWORD));
    assert!(!verify_password(None, "alice", EXAMPLE_PASSWORD));
}

#[test]
fn bearer_token_strips_scheme() {
    assert_eq!(bearer_token(Some(b"Bearer abc.def.ghi")), Some("abc.def.ghi".to_string()));
}

#[test]
fn bearer_token_removes_every_occurrence() {
    assert_eq!(bearer_token(Some(b"Bearer Bearer xBearer y")), Some("xy".to_string()));
    assert_eq!(bearer_token(Some(b"token")), Some("token".to_string()));
    assert_eq!(bearer_token(Some(b"Bearer")), Some("Bearer".to_string()));
}

#[test]
fn bearer_token_missing_or_unreadable() {
    assert_eq!(bearer_token(None), None);
    assert_eq!(bearer_token(Some(b"Bearer \x7f")), Some(String::new()));
}

#[test]
fn token_claims_expire_after_eight_hours() {
    let c: TokenClaims = token_claims("alice", 1_700_000_000);
    assert_eq!(c.sub, "alice");
    assert_eq!(c.exp, 1_700_028_800usize);
    assert_eq!(TOKEN_LIFETIME_SECONDS, 8 * 3600);
}

#[test]
fn challenge_round_trip() {
    let mut store: PendingStore<u32> = PendingStore::new(300);
    store.begin("s1".to_string(), 1000, "alice".to_string(), 7);
    assert_eq!(store.take(&"s1".to_string(), 1299), Ok(("alice".to_string(), 7)));
}

#[test]
fn challenge_is_single_use() {
    let mut store: PendingStore<u32> = PendingStore::new(300);
    store.begin("s1".to_string(), 1000, "alice".to_string(), 7);
    assert!(store.take(&"s1".to_string(), 1001).is_ok());
    assert_eq!(store.take(&"s1".to_string(), 1002), Err(AuthError::InvalidSession));
}

#[test]
fn challenge_expires_at_lifetime() {
    let mut store: PendingStore<u32> = PendingStore::new(300);
    store.begin("s1".to_string(), 1000, "alice".to_string(), 7);
    assert_eq!(store.take(&"s1".to_string(), 1300), Err(AuthError::ChallengeExpired));
    // the expired challenge was removed by the attempt
    assert_eq!(store.take(&"s1".to_string(), 1000), Err(AuthError::InvalidSession));
}

#[test]
fn challenge_unknown_session() {
    let mut store: PendingStore<u32> = PendingStore::new(300);
    store.begin("s1".to_string(), 1000, "alice".to_string(), 7);
    assert_eq!(store.take(&"s2".to_string(), 1000), Err(AuthError::InvalidSession));
    assert_eq!(store.take(&"s1".to_string(), 1000), Ok(("alice".to_string(), 7)));
}

#[test]
fn challenge_clock_going_backwards_counts_as_fresh() {
    let mut store: PendingStore<u32> = PendingStore::new(300);
    store.begin("s1".to_string(), 1000, "alice".to_string(), 7);
    assert_eq!(store.take(&"s1".to_string(), 10), Ok(("alice".to_string(), 7)));
}

#[test]
fn begin_drops_expired_and_keeps_live() {
    let mut store: PendingStore<u32> = PendingStore::new(300);
    store.begin("old".to_string(), 0, "a".to_string(), 1);
    store.begin("mid".to_string(), 200, "b".to_string(), 2);
    store.begin("new".to_string(), 400, "c".to_string(), 3);
    // "old" was 400 units old when "new" was issued and is gone for good
    assert_eq!(store.take(&"old".to_string(), 0), Err(AuthError::InvalidSession));
    assert_eq!(store.take(&"mid".to_string(), 450), Ok(("b".to_string(), 2)));
    assert_eq!(store.take(&"new".to_string(), 450), Ok(("c".to_string(), 3)));
}

#[test]
fn begin_replaces_same_session() {
    let mut store: PendingStore<u32> = PendingStore::new(300);
    store.begin("s".to_string(), 10, "a".to_string(), 1);
    store.begin("s".to_string(), 20, "b".to_string(), 2);
    assert_eq!(store.take(&"s".to_string(), 25), Ok(("b".to_string(), 2)));
    assert_eq!(store.take(&"s".to_string(), 25), Err(AuthError::InvalidSession));
}

#[test]
fn purge_and_insert_directly() {
    let mut store: PendingStore<u32> = PendingStore::new(5);
    assert_eq!(store.lifetime(), 5);
    store.insert("a".to_string(), 0, "x".to_string(), 1);
    store.insert("b".to_string(), 4, "y".to_string(), 2);
    store.purge_expired(6);
    assert_eq!(store.take(&"a".to_string(), 4), Err(AuthError::InvalidSession));
    assert_eq!(store.take(&"b".to_string(), 6), Ok(("y".to_string(), 2)));
}

#[test]
fn refusals_status_and_text() {
    let cases = [
        (AuthError::MissingAuthorization, 401, "Missing or invalid Authorization header"),
        (AuthError::InvalidCredentials, 401, "Invalid credentials"),
        (AuthError::NoKeyRegistered, 401, "No YubiKey registered for this user"),
        (AuthError::WebauthnFailure, 500, "WebAuthn error"),
        (AuthError::ChallengeExpired, 401, "Challenge expired"),
        (AuthError::InvalidSession, 401, "Invalid session"),
        (AuthError::VerificationFailed, 401, "WebAuthn verification failed"),
        (AuthError::RegistrationFailed, 400, "WebAuthn registration failed"),
        (AuthError::SaveFailed, 500, "Failed to save credential"),
    ];
    for (e, code, text) in cases {
        assert_eq!(e.status(), code);
        assert_eq!(e.message(), text);
    }
}

fn unix_now() -> i64 {
    std::time::SystemTime::now()
        .duration_since(std::time::UNIX_EPOCH)
        .unwrap()
        .as_secs() as i64
}

#[test]
fn password_step_outcomes() {
    let shadow = format!("alice:{}:19001:0:99999:7:::\n", EXAMPLE_HASH);
    let step = |c: Option<(String, String)>, s: Option<&str>| check_password(c, s).map(|a| a.name().to_string());
    assert_eq!(step(None, Some(&shadow)), Err(AuthError::MissingAuthorization));
    assert_eq!(step(pair("alice", EXAMPLE_PASSWORD), Some(&shadow)), Ok("alice".to_string()));
    assert_eq!(step(pair("alice", "nope"), Some(&shadow)), Err(AuthError::InvalidCredentials));
    assert_eq!(step(pair("alice", EXAMPLE_PASSWORD), None), Err(AuthError::InvalidCredentials));
    let approved = check_password(pair("alice", EXAMPLE_PASSWORD), Some(&shadow)).ok().unwrap();
    assert_eq!(approved.name_string(), "alice");
}

#[test]
fn yescrypt_rejects_locked_accounts() {
    assert!(!verify_shadow_hash("", "*"));
    assert!(!verify_shadow_hash("x", "!"));
    assert!(!verify_shadow_hash(EXAMPLE_PASSWORD, "$6$salt$abc"));
}

#[test]
fn token_round_trip() {
    let key = b"0123456789abcdef0123456789abcdef";
    let t = create_token("alice", unix_now(), key);
    assert_eq!(t.split('.').count(), 3);
    let header = format!("Bearer {}", t);
    assert!(verify_token(Some(header.as_bytes()), key));
    assert!(!verify_token(Some(header.as_bytes()), b"another key"));
    assert!(!verify_token(None, key));
}

#[test]
fn token_is_deterministic_and_names_user() {
    let key = b"k";
    let a = create_token("alice", 1_700_000_000, key);
    assert_eq!(a, create_token("alice", 1_700_000_000, key));
    assert_ne!(a, create_token("bob", 1_700_000_000, key));
    assert_ne!(a, create_token("alice", 1_700_000_001, key));
    assert_ne!(a, create_token("alice", 1_700_000_000, b"other"));
}

#[test]
fn expired_token_is_refused() {
    let key = b"secret";
    let t = create_token("alice", unix_now() - 2 * TOKEN_LIFETIME_SECONDS, key);
    let header = format!("Bearer {}", t);
    assert!(!verify_token(Some(header.as_bytes()), key));
}

#[test]
fn malformed_token_is_refused() {
    assert!(!verify_token(Some(b"Bearer not.a.token"), b"k"));
    assert!(!verify_token(Some(b""), b"k"));
}

#[test]
fn locked_and_unknown_accounts_fail() {
    let shadow = "root:*:19000:0:99999:7:::\nbadline\n";
    assert!(!verify_password(Some(shadow), "root", ""));
    assert!(!verify_password(Some(shadow), "root", "*"));
    assert!(!verify_password(Some(shadow), "alice", "x"));
    assert!(!verify_password(Some(shadow), "badline", ""));
}

#[test]
fn decoded_credentials_are_split() {
    assert_eq!(credentials_from_bytes(b"user:pa:ss".to_vec()), pair("user", "pa:ss"));
    assert_eq!(credentials_from_bytes(b":".to_vec()), pair("", ""));
    assert_eq!(credentials_from_bytes(b"nocolon".to_vec()), None);
    assert_eq!(credentials_from_bytes(vec![0xff, b':']), None);
}

#[test]
fn decoded_claims_decide() {
    assert!(claims_accepted(Ok((Some("alice".to_string()), Some(1_700_000_000)))));
    assert!(!claims_accepted(Ok((None, Some(1_700_000_000)))));
    assert!(!claims_accepted(Ok((Some("alice".to_string()), None))));
    assert!(!claims_accepted(Err(())));
    let fits = (usize::MAX as u64) == u64::MAX;
    assert_eq!(claims_accepted(Ok((Some("a".to_string()), Some(u64::MAX)))), fits);
}

#[test]
fn unreadable_header_presents_no_token() {
    let key = b"k";
    let t = create_token("alice", unix_now(), key);
    let mut header = format!("Bearer {}", t).into_bytes();
    header.push(0x01);
    assert!(!verify_token(Some(&header), key));
}
