use server_dash_api::ceremony::{
    begin_enrollment, begin_login, credential_ids, finish_enrollment, finish_login,
    registration_arguments, RelyingParty, SetupError,
};
use server_dash_api::credentials::{check_password, ApprovedUser};
use server_dash_api::pending::PendingStore;
use server_dash_api::replies::AuthError;
use webauthn_rs::prelude::{
    PasskeyAuthentication, PasskeyRegistration, PublicKeyCredential, RegisterPublicKeyCredential, Uuid,
};

const EXAMPLE_HASH: &str = "$y$j0/$LdJM$k7BXzSDuoGHW56SY3HxROCiA0gWRscZe2aA0q5oHPM0";
const EXAMPLE_PASSWORD: &str = "pleaseletmein";

fn party() -> RelyingParty {
    RelyingParty::new("example.org", "https://dashboard.example.org", "Test").ok().unwrap()
}

fn approved(name: &str) -> ApprovedUser {
    let shadow = format!("{}:{}:19001:0:99999:7:::\n", name, EXAMPLE_HASH);
    check_password(Some((name.to_string(), EXAMPLE_PASSWORD.to_string())), Some(&shadow)).ok().unwrap()
}

fn is_hex_id(s: &str) -> bool {
    s.len() == 32 && s.chars().all(|c| c.is_ascii_digit() || ('a'..='f').contains(&c))
}

#[test]
fn relying_party_needs_a_url_origin() {
    assert_eq!(RelyingParty::new("example.org", "not a url", "Test").err(), Some(SetupError::InvalidOrigin));
    assert!(RelyingParty::new("example.org", "https://dashboard.example.org", "Test").is_ok());
}

#[test]
fn relying_party_id_must_suit_origin() {
    assert!(RelyingParty::new("other.org", "https://dashboard.example.org", "Test").is_err());
}

#[test]
fn enrollment_challenge_is_recorded_under_new_user_handle() {
    let p = party();
    let mut pending: PendingStore<(PasskeyRegistration, Uuid)> = PendingStore::new(300);
    let (session_id, _challenge) = begin_enrollment(&p, None, &mut pending, &approved("alice"), 1000).unwrap();
    assert!(is_hex_id(&session_id));
    let (user, (_state, _handle)) = pending.take(&session_id, 1100).unwrap();
    assert_eq!(user, "alice");
    assert_eq!(pending.take(&session_id, 1100).map(|_| ()), Err(AuthError::InvalidSession));
}

#[test]
fn enrollment_keeps_existing_user_handle() {
    let p = party();
    let handle = Uuid::from_u128(0x1234_5678_9abc_def0_1234_5678_9abc_def0);
    let mut pending: PendingStore<(PasskeyRegistration, Uuid)> = PendingStore::new(300);
    let (session_id, _challenge) =
        begin_enrollment(&p, Some((handle, &[])), &mut pending, &approved("bob"), 5).unwrap();
    let (user, (_state, stored_handle)) = pending.take(&session_id, 6).unwrap();
    assert_eq!(user, "bob");
    assert_eq!(stored_handle, handle);
}

#[test]
fn enrollment_challenge_expires() {
    let p = party();
    let mut pending: PendingStore<(PasskeyRegistration, Uuid)> = PendingStore::new(300);
    let (session_id, _) = begin_enrollment(&p, None, &mut pending, &approved("carol"), 0).unwrap();
    assert_eq!(pending.take(&session_id, 300).map(|_| ()), Err(AuthError::ChallengeExpired));
}

#[test]
fn registration_arguments_keep_handle_and_exclude_stored() {
    let handle = Uuid::from_u128(42);
    let (id, exclude) = registration_arguments(Some((handle, &[])));
    assert_eq!(id, handle);
    assert_eq!(exclude.map(|v| v.len()), Some(0));
    let (fresh, none) = registration_arguments(None);
    assert!(none.is_none());
    assert_eq!(fresh.get_version_num(), 4);
}

#[test]
fn login_challenge_is_recorded_or_refused() {
    let p = party();
    let mut pending: PendingStore<(PasskeyAuthentication, ApprovedUser)> = PendingStore::new(300);
    match begin_login(&p, Some(&[]), &mut pending, approved("alice"), 10) {
        Ok((session_id, _challenge)) => {
            assert!(is_hex_id(&session_id));
            let (user, (_state, who)) = pending.take(&session_id, 20).unwrap();
            assert_eq!(user, "alice");
            assert_eq!(who.name(), "alice");
        }
        Err(e) => assert_eq!(e, AuthError::WebauthnFailure),
    }
}

#[test]
fn no_credentials_no_ids() {
    assert!(credential_ids(&[]).is_empty());
}

fn bogus_assertion() -> PublicKeyCredential {
    serde_json::from_str(
        r#"{"id":"AAAA","rawId":"AAAA","response":{"authenticatorData":"AAAA","clientDataJSON":"AAAA","signature":"AAAA","userHandle":null},"type":"public-key"}"#,
    )
    .unwrap()
}

fn bogus_attestation() -> RegisterPublicKeyCredential {
    serde_json::from_str(
        r#"{"id":"AAAA","rawId":"AAAA","response":{"attestationObject":"AAAA","clientDataJSON":"AAAA"},"type":"public-key"}"#,
    )
    .unwrap()
}

#[test]
fn finish_login_passes_refusals_on() {
    let p = party();
    let cred = bogus_assertion();
    assert_eq!(finish_login(&p, Err(AuthError::InvalidSession), &cred).err(), Some(AuthError::InvalidSession));
    assert_eq!(finish_login(&p, Err(AuthError::ChallengeExpired), &cred).err(), Some(AuthError::ChallengeExpired));
}

#[test]
fn finish_login_rejects_bad_assertion() {
    let p = party();
    let mut pending: PendingStore<(PasskeyAuthentication, ApprovedUser)> = PendingStore::new(300);
    if let Ok((session_id, _)) = begin_login(&p, Some(&[]), &mut pending, approved("alice"), 10) {
        let taken = pending.take(&session_id, 11);
        assert_eq!(finish_login(&p, taken, &bogus_assertion()).err(), Some(AuthError::VerificationFailed));
    }
}

#[test]
fn finish_enrollment_passes_refusals_on() {
    let p = party();
    let cred = bogus_attestation();
    assert_eq!(finish_enrollment(&p, Err(AuthError::InvalidSession), &cred).err(), Some(AuthError::InvalidSession));
}

#[test]
fn finish_enrollment_rejects_bad_attestation() {
    let p = party();
    let mut pending: PendingStore<(PasskeyRegistration, Uuid)> = PendingStore::new(300);
    let (session_id, _) = begin_enrollment(&p, None, &mut pending, &approved("dave"), 0).unwrap();
    let taken = pending.take(&session_id, 1);
    assert_eq!(finish_enrollment(&p, taken, &bogus_attestation()).err(), Some(AuthError::RegistrationFailed));
}

#[test]
fn login_without_enrolled_keys_is_refused() {
    let p = party();
    let mut pending: PendingStore<(PasskeyAuthentication, ApprovedUser)> = PendingStore::new(300);
    assert_eq!(
        begin_login(&p, None, &mut pending, approved("erin"), 0).map(|_| ()),
        Err(AuthError::NoKeyRegistered)
    );
}
