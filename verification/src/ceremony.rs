//! The second factor: WebAuthn ceremonies with a security key, and the
//! bookkeeping of their pending challenges.

use vstd::prelude::*;
use webauthn_rs::prelude::{
    AuthenticationResult, CreationChallengeResponse, CredentialID, Passkey,
    PasskeyAuthentication, PasskeyRegistration, PublicKeyCredential, RegisterPublicKeyCredential,
    RequestChallengeResponse, Url, Uuid, Webauthn, WebauthnBuilder, WebauthnError,
};
use crate::pending::{after_begin, elapsed, is_live, take_result, Challenge, PendingStore};
use crate::credentials::{password_approved, ApprovedUser};
use crate::replies::AuthError;
use crate::session::{generate_session_id, is_token};

verus! {

/// `webauthn_rs::Webauthn`: the relying party's WebAuthn configuration.
#[verifier::external_type_specification]
#[verifier::external_body]
pub struct ExWebauthn(Webauthn);

/// `webauthn_rs::prelude::Passkey`: an enrolled credential.
#[verifier::external_type_specification]
#[verifier::external_body]
pub struct ExPasskey(Passkey);

/// `webauthn_rs::prelude::PasskeyAuthentication`: the state of a pending login ceremony.
#[verifier::external_type_specification]
#[verifier::external_body]
pub struct ExPasskeyAuthentication(PasskeyAuthentication);

/// `webauthn_rs::prelude::PasskeyRegistration`: the state of a pending enrollment ceremony.
#[verifier::external_type_specification]
#[verifier::external_body]
pub struct ExPasskeyRegistration(PasskeyRegistration);

/// `webauthn_rs::prelude::RequestChallengeResponse`: a login challenge for the browser.
#[verifier::external_type_specification]
#[verifier::external_body]
pub struct ExRequestChallengeResponse(RequestChallengeResponse);

/// `webauthn_rs::prelude::CreationChallengeResponse`: an enrollment challenge for the browser.
#[verifier::external_type_specification]
#[verifier::external_body]
pub struct ExCreationChallengeResponse(CreationChallengeResponse);

/// `webauthn_rs::prelude::PublicKeyCredential`: an authenticator's answer to a login challenge.
#[verifier::external_type_specification]
#[verifier::external_body]
pub struct ExPublicKeyCredential(PublicKeyCredential);

/// `webauthn_rs::prelude::RegisterPublicKeyCredential`: an authenticator's answer to an enrollment challenge.
#[verifier::external_type_specification]
#[verifier::external_body]
pub struct ExRegisterPublicKeyCredential(RegisterPublicKeyCredential);

/// `webauthn_rs::prelude::AuthenticationResult`: what a successful login ceremony established.
#[verifier::external_type_specification]
#[verifier::external_body]
pub struct ExAuthenticationResult(AuthenticationResult);

/// `webauthn_rs::prelude::CredentialID`: a credential's id.
#[verifier::external_type_specification]
#[verifier::external_body]
pub struct ExCredentialID(CredentialID);

/// `webauthn_rs::prelude::WebauthnError`: why a ceremony step failed.
#[verifier::external_type_specification]
#[verifier::external_body]
pub struct ExWebauthnError(WebauthnError);

/// `uuid::Uuid`: a user handle.
#[verifier::external_type_specification]
#[verifier::external_body]
pub struct ExUuid(Uuid);

/// `url::Url`: a parsed URL.
#[verifier::external_type_specification]
#[verifier::external_body]
pub struct ExUrl(Url);

/// `url::ParseError`: why a text is not a URL.
#[verifier::external_type_specification]
#[verifier::external_body]
pub struct ExUrlParseError(url::ParseError);

/// What `Url::parse` makes of a text, or `None` where it is not a URL.
pub uninterp spec fn url_parse(text: Seq<char>) -> Option<Url>;

/// Whether a WebAuthn configuration's authenticator timeout, in
/// milliseconds, fits a `u32`, as the ceremonies require of it.
pub uninterp spec fn timeout_fits(webauthn: Webauthn) -> bool;

/// The WebAuthn configuration that `WebauthnBuilder` builds for a relying
/// party id, origin and name, with every other setting at its default.
pub uninterp spec fn configured_webauthn(rp_id: Seq<char>, origin: Url, rp_name: Seq<char>) -> Webauthn;

/// The credentials a login ceremony state was started for.
pub uninterp spec fn login_credentials(state: PasskeyAuthentication) -> Seq<Passkey>;

/// What checking `credential` against the login state `state` under the
/// configuration `webauthn` yields: the authentication result, or `None`
/// where the assertion does not verify.
pub uninterp spec fn assertion_outcome(
    webauthn: Webauthn,
    credential: PublicKeyCredential,
    state: PasskeyAuthentication,
) -> Option<AuthenticationResult>;

/// What checking `credential` against the enrollment state `state` under
/// the configuration `webauthn` yields: the new credential, or `None` where
/// the attestation does not verify.
pub uninterp spec fn attestation_outcome(
    webauthn: Webauthn,
    credential: RegisterPublicKeyCredential,
    state: PasskeyRegistration,
) -> Option<Passkey>;

/// A credential after taking over an authentication result, and whether it
/// was the credential used (`Some`) and then changed (`Some(true)`).
pub uninterp spec fn credential_update(passkey: Passkey, result: AuthenticationResult) -> (
    Passkey,
    Option<bool>,
);

/// The id of a credential.
pub uninterp spec fn cred_id_of(passkey: Passkey) -> CredentialID;

/// `Url::parse`: the URL a text denotes. The result is named; it depends on
/// the text alone.
#[verifier::external_body]
fn parse_url(text: &str) -> (r: Result<Url, url::ParseError>)
    ensures
        match r {
            Ok(u) => url_parse(text@) == Some(u),
            Err(_) => url_parse(text@) is None,
        },
{
    Url::parse(text)
}

/// `WebauthnBuilder::new(rp_id, origin)` (outer result), then
/// `.rp_name(rp_name).build()` (inner result). The configuration built is
/// named; it keeps the builder's default authenticator timeout of five
/// minutes, which fits a `u32` in milliseconds. When either step fails is
/// not stated.
#[verifier::external_body]
fn build_webauthn(rp_id: &str, origin: &Url, rp_name: &str) -> (r: Result<
    Result<Webauthn, WebauthnError>,
    WebauthnError,
>)
    ensures
        r matches Ok(Ok(w)) ==> w == configured_webauthn(rp_id@, *origin, rp_name@) && timeout_fits(
            w,
        ),
{
    WebauthnBuilder::new(rp_id, origin).map(|b| b.rp_name(rp_name).build())
}

/// `Webauthn::start_passkey_authentication`: a fresh, random challenge and
/// the state to finish it with. The state is the one for the given
/// credentials; nothing is promised of the challenge, nor of success. The
/// call panics on a timeout too large for a `u32` in milliseconds, which
/// `requires` rules out.
#[verifier::external_body]
fn start_authentication(
    webauthn: &Webauthn,
    credentials: &[Passkey],
) -> (r: Result<(RequestChallengeResponse, PasskeyAuthentication), WebauthnError>)
    requires
        timeout_fits(*webauthn),
    ensures
        r matches Ok((_, state)) ==> login_credentials(state) == credentials@,
{
    webauthn.start_passkey_authentication(credentials)
}

/// `Webauthn::finish_passkey_authentication`: checks the authenticator's
/// assertion against the pending state; the outcome is named and depends
/// on the configuration, the assertion and the state alone.
#[verifier::external_body]
fn finish_authentication(
    webauthn: &Webauthn,
    credential: &PublicKeyCredential,
    state: &PasskeyAuthentication,
) -> (r: Result<AuthenticationResult, WebauthnError>)
    ensures
        match r {
            Ok(a) => assertion_outcome(*webauthn, *credential, *state) == Some(a),
            Err(_) => assertion_outcome(*webauthn, *credential, *state) is None,
        },
{
    webauthn.finish_passkey_authentication(credential, state)
}

/// Whether no attestation that verifies against the enrollment state
/// `state`, under any configuration, yields a credential whose id is in
/// `ids` (when there is such a list).
pub open spec fn refuses_ids(state: PasskeyRegistration, ids: Option<Seq<CredentialID>>) -> bool {
    forall|w: Webauthn, c: RegisterPublicKeyCredential|
        #[trigger] attestation_outcome(w, c, state) is Some && ids is Some ==> !ids->Some_0.contains(
            cred_id_of(attestation_outcome(w, c, state)->Some_0),
        )
}

/// `Webauthn::start_passkey_registration`: a fresh, random enrollment
/// challenge and the state to finish it with. The state keeps the
/// exclusion list, and finishing with it refuses a credential whose id is
/// on that list (`register_credential_internal` checks the new credential's
/// id against the state's `exclude_credentials`, under any configuration).
/// Nothing else is promised of the state or the challenge, nor of success:
/// the state records neither the user handle nor the names. The call
/// panics on a timeout too large for a `u32` in milliseconds, which
/// `requires` rules out.
#[verifier::external_body]
fn start_registration(
    webauthn: &Webauthn,
    user_id: Uuid,
    name: &str,
    display_name: &str,
    exclude: Option<Vec<CredentialID>>,
) -> (r: Result<(CreationChallengeResponse, PasskeyRegistration), WebauthnError>)
    requires
        timeout_fits(*webauthn),
    ensures
        r matches Ok((_, state)) ==> refuses_ids(
            state,
            match exclude {
                Some(v) => Some(v@),
                None => None,
            },
        ),
{
    webauthn.start_passkey_registration(user_id, name, display_name, exclude)
}

/// `Webauthn::finish_passkey_registration`: checks the authenticator's
/// attestation against the pending state and yields the new credential; the
/// outcome is named and depends on the configuration, the attestation and
/// the state alone.
#[verifier::external_body]
fn finish_registration(
    webauthn: &Webauthn,
    credential: &RegisterPublicKeyCredential,
    state: &PasskeyRegistration,
) -> (r: Result<Passkey, WebauthnError>)
    ensures
        match r {
            Ok(p) => attestation_outcome(*webauthn, *credential, *state) == Some(p),
            Err(_) => attestation_outcome(*webauthn, *credential, *state) is None,
        },
{
    webauthn.finish_passkey_registration(credential, state)
}

/// `Passkey::update_credential`: takes over the signature counter and
/// backup state of a successful authentication with this credential, and
/// tells whether the credential was the one used and was changed. Both the
/// new credential and the answer are named; they depend on the credential
/// and the result alone.
#[verifier::external_body]
fn update_credential(passkey: &mut Passkey, result: &AuthenticationResult) -> (r: Option<bool>)
    ensures
        (*final(passkey), r) == credential_update(*old(passkey), *result),
{
    passkey.update_credential(result)
}

/// `Passkey::cred_id`, cloned: the credential's id.
#[verifier::external_body]
fn credential_id(passkey: &Passkey) -> (r: CredentialID)
    ensures
        r == cred_id_of(*passkey),
{
    passkey.cred_id().clone()
}

/// `Uuid::new_v4`: a random user handle. Nothing is promised of it.
#[verifier::external_body]
fn random_user_id() -> Uuid {
    Uuid::new_v4()
}

/// Why the relying party's configuration could not be set up.
#[derive(Debug, Clone, Copy, PartialEq, Eq, Structural)]
pub enum SetupError {
    /// The origin is not a URL.
    InvalidOrigin,
    /// The relying party id does not suit the origin.
    InvalidConfig,
    /// The configuration could not be built.
    BuildFailed,
}

/// The relying party: a WebAuthn configuration whose authenticator timeout
/// fits the `u32` milliseconds that the ceremonies send.
pub struct RelyingParty {
    webauthn: Webauthn,
}

impl RelyingParty {
    #[verifier::type_invariant]
    spec fn timeout_ok(self) -> bool {
        timeout_fits(self.webauthn)
    }

    /// The WebAuthn configuration.
    pub closed spec fn config(self) -> Webauthn {
        self.webauthn
    }

    /// Sets up the relying party `rp_id`, named `rp_name`, at `origin`.
    pub fn new(rp_id: &str, origin: &str, rp_name: &str) -> (r: Result<RelyingParty, SetupError>)
        ensures
            match r {
                Ok(party) => url_parse(origin@) matches Some(u) && party.config()
                    == configured_webauthn(rp_id@, u, rp_name@),
                Err(e) => (e == SetupError::InvalidOrigin) == (url_parse(origin@) is None),
            },
    {
        let url = match parse_url(origin) {
            Ok(u) => u,
            Err(_) => return Err(SetupError::InvalidOrigin),
        };
        match build_webauthn(rp_id, &url, rp_name) {
            Err(_) => Err(SetupError::InvalidConfig),
            Ok(Err(_)) => Err(SetupError::BuildFailed),
            Ok(Ok(webauthn)) => Ok(RelyingParty { webauthn }),
        }
    }
}

/// The payload of a pending login: the ceremony state and the user the
/// password step approved.
pub type LoginPayload = (PasskeyAuthentication, ApprovedUser);

/// `after` is `before` with a login challenge for the approved user `user`
/// issued at `now` under `session_id`, whose state was started for
/// `credentials`.
pub open spec fn login_recorded(
    before: Map<Seq<char>, Challenge<(PasskeyAuthentication, ApprovedUser)>>,
    ttl: u64,
    session_id: Seq<char>,
    now: u64,
    user: ApprovedUser,
    credentials: Seq<Passkey>,
    after: Map<Seq<char>, Challenge<(PasskeyAuthentication, ApprovedUser)>>,
) -> bool {
    exists|state: PasskeyAuthentication|
        after == after_begin(before, ttl, session_id, now, user.user(), (state, user))
            && login_credentials(state) == credentials
}

/// Starts a login's second step for a user the password step approved,
/// with the user's enrolled credentials (`None` when none are on file): a
/// challenge for exactly those credentials is issued and recorded in
/// `pending` under a fresh session id, which is returned with the challenge
/// to send.
pub fn begin_login(
    party: &RelyingParty,
    credentials: Option<&[Passkey]>,
    pending: &mut PendingStore<(PasskeyAuthentication, ApprovedUser)>,
    user: ApprovedUser,
    now: u64,
) -> (r: Result<(String, RequestChallengeResponse), AuthError>)
    requires
        old(pending).wf(),
    ensures
        final(pending).wf(),
        final(pending).ttl() == old(pending).ttl(),
        match r {
            Ok((session_id, _)) => credentials is Some && is_token(session_id@) && login_recorded(
                old(pending).view(),
                old(pending).ttl(),
                session_id@,
                now,
                user,
                credentials->Some_0@,
                final(pending).view(),
            ),
            Err(e) => final(pending).view() == old(pending).view() && (if credentials is None {
                e == AuthError::NoKeyRegistered
            } else {
                e == AuthError::WebauthnFailure
            }),
        },
{
    proof {
        use_type_invariant(party);
    }
    let credentials = match credentials {
        None => return Err(AuthError::NoKeyRegistered),
        Some(c) => c,
    };
    let (challenge, state) = match start_authentication(&party.webauthn, credentials) {
        Ok(started) => started,
        Err(_) => return Err(AuthError::WebauthnFailure),
    };
    let session_id = generate_session_id();
    let key = session_id.clone();
    let username = user.name_string();
    let ghost st = state;
    let ghost u = user;
    pending.begin(key, now, username, (state, user));
    assert(pending.view() == after_begin(
        old(pending).view(),
        old(pending).ttl(),
        session_id@,
        now,
        u.user(),
        (st, u),
    ));
    assert(login_recorded(
        old(pending).view(),
        old(pending).ttl(),
        session_id@,
        now,
        u,
        credentials@,
        pending.view(),
    ));
    Ok((session_id, challenge))
}

/// What finishing a login answers: a refusal in `taken` is passed on;
/// otherwise the approved user of the pending challenge, with the
/// authentication result, when the assertion verifies against the pending
/// state, and `VerificationFailed` when it does not.
pub open spec fn login_finish_result(
    webauthn: Webauthn,
    taken: Result<(Seq<char>, (PasskeyAuthentication, ApprovedUser)), AuthError>,
    credential: PublicKeyCredential,
) -> Result<(Seq<char>, AuthenticationResult), AuthError> {
    match taken {
        Err(e) => Err(e),
        Ok((_, (state, user))) => match assertion_outcome(webauthn, credential, state) {
            Some(a) => Ok((user.user(), a)),
            None => Err(AuthError::VerificationFailed),
        },
    }
}

/// Finishes a login's second step: `taken` is what was taken out of the
/// pending challenges for the session. A refusal there is passed on;
/// otherwise the authenticator's assertion is checked against the pending
/// state, and the user the password step approved for the challenge is
/// returned with the result of the check.
pub fn finish_login(
    party: &RelyingParty,
    taken: Result<(String, (PasskeyAuthentication, ApprovedUser)), AuthError>,
    credential: &PublicKeyCredential,
) -> (r: Result<(String, AuthenticationResult), AuthError>)
    ensures
        crate::pending::outcome_view(r) == login_finish_result(
            party.config(),
            crate::pending::outcome_view(taken),
            *credential,
        ),
        r matches Ok((user, _)) ==> password_approved(user@),
{
    match taken {
        Err(e) => Err(e),
        Ok((_, (state, user))) => match finish_authentication(&party.webauthn, credential, &state) {
            Ok(result) => Ok((user.name_string(), result)),
            Err(_) => Err(AuthError::VerificationFailed),
        },
    }
}

/// Passes a successful authentication on to every stored credential, so
/// that the one that was used keeps its signature counter: each credential
/// becomes what `Passkey::update_credential` makes of it, in place.
pub fn refresh_credentials(credentials: &mut Vec<Passkey>, result: &AuthenticationResult)
    ensures
        final(credentials)@.len() == old(credentials)@.len(),
        forall|i: int|
            0 <= i < old(credentials)@.len() ==> #[trigger] final(credentials)@[i]
                == credential_update(old(credentials)@[i], *result).0,
{
    let mut i: usize = 0;
    let n = credentials.len();
    while i < n
        invariant
            n == credentials@.len(),
            n == old(credentials)@.len(),
            i <= n,
            forall|k: int| 0 <= k < i ==> #[trigger] credentials@[k] == credential_update(
                old(credentials)@[k],
                *result,
            ).0,
            forall|k: int| i <= k < n ==> #[trigger] credentials@[k] == old(credentials)@[k],
        decreases n - i,
    {
        let mut passkey = credentials.remove(i);
        let _changed = update_credential(&mut passkey, result);
        credentials.insert(i, passkey);
        i = i + 1;
    }
}

/// The ids of the given credentials, in order.
pub fn credential_ids(credentials: &[Passkey]) -> (r: Vec<CredentialID>)
    ensures
        r@ == credentials@.map_values(|p: Passkey| cred_id_of(p)),
{
    let mut r: Vec<CredentialID> = Vec::new();
    let mut i: usize = 0;
    while i < credentials.len()
        invariant
            i <= credentials@.len(),
            r@ == credentials@.take(i as int).map_values(|p: Passkey| cred_id_of(p)),
        decreases credentials.len() - i,
    {
        r.push(credential_id(&credentials[i]));
        i = i + 1;
        assert(r@ =~= credentials@.take(i as int).map_values(|p: Passkey| cred_id_of(p)));
    }
    assert(credentials@.take(i as int) =~= credentials@);
    r
}

/// The exclusion list an enrollment is started with: the ids of the
/// credentials already on file, if any.
pub open spec fn excluded_ids(stored: Option<(Uuid, Seq<Passkey>)>) -> Option<Seq<CredentialID>> {
    match stored {
        Some((_, credentials)) => Some(credentials.map_values(|p: Passkey| cred_id_of(p))),
        None => None,
    }
}

/// The view of what is on file for a user: the user handle and the
/// enrolled credentials.
pub open spec fn stored_view(stored: Option<(Uuid, &[Passkey])>) -> Option<(Uuid, Seq<Passkey>)> {
    match stored {
        Some((id, credentials)) => Some((id, credentials@)),
        None => None,
    }
}

/// The user handle and exclusion list an enrollment is started with: a
/// user with credentials on file keeps their handle and has those
/// credentials excluded; otherwise a new random handle is drawn and nothing
/// is excluded.
pub fn registration_arguments(stored: Option<(Uuid, &[Passkey])>) -> (r: (
    Uuid,
    Option<Vec<CredentialID>>,
))
    ensures
        match stored {
            Some((id, _)) => r.0 == id,
            None => true,
        },
        match r.1 {
            Some(v) => excluded_ids(stored_view(stored)) == Some(v@),
            None => excluded_ids(stored_view(stored)) is None,
        },
{
    match stored {
        Some((id, credentials)) => (id, Some(credential_ids(credentials))),
        None => (random_user_id(), None),
    }
}

/// `after` is `before` with an enrollment challenge for `username` issued
/// at `now` under `session_id`, recording the user handle (the stored one,
/// when credentials are on file) and a registration state that refuses the
/// credentials on file.
pub open spec fn enrollment_recorded(
    before: Map<Seq<char>, Challenge<(PasskeyRegistration, Uuid)>>,
    ttl: u64,
    session_id: Seq<char>,
    now: u64,
    username: Seq<char>,
    stored: Option<(Uuid, Seq<Passkey>)>,
    after: Map<Seq<char>, Challenge<(PasskeyRegistration, Uuid)>>,
) -> bool {
    exists|state: PasskeyRegistration, handle: Uuid|
        after == after_begin(before, ttl, session_id, now, username, (state, handle)) && (
        stored matches Some((id, _)) ==> handle == id) && refuses_ids(state, excluded_ids(stored))
}

/// Starts enrolling a security key for a user the password step approved.
/// The ceremony is started with the arguments of `registration_arguments`
/// (the stored handle and the ids of the stored credentials, if any) and
/// the user's name as name and display name. The challenge is recorded in
/// `pending` under a fresh session id, together with the registration state
/// and the user handle.
pub fn begin_enrollment(
    party: &RelyingParty,
    stored: Option<(Uuid, &[Passkey])>,
    pending: &mut PendingStore<(PasskeyRegistration, Uuid)>,
    user: &ApprovedUser,
    now: u64,
) -> (r: Result<(String, CreationChallengeResponse), AuthError>)
    requires
        old(pending).wf(),
    ensures
        final(pending).wf(),
        final(pending).ttl() == old(pending).ttl(),
        match r {
            Ok((session_id, _)) => is_token(session_id@) && enrollment_recorded(
                old(pending).view(),
                old(pending).ttl(),
                session_id@,
                now,
                user.user(),
                stored_view(stored),
                final(pending).view(),
            ),
            Err(e) => e == AuthError::WebauthnFailure && final(pending).view() == old(
                pending,
            ).view(),
        },
{
    proof {
        use_type_invariant(party);
    }
    let (user_id, exclude) = registration_arguments(stored);
    let username = user.name_string();
    let (challenge, state) = match start_registration(
        &party.webauthn,
        user_id,
        username.as_str(),
        username.as_str(),
        exclude,
    ) {
        Ok(started) => started,
        Err(_) => return Err(AuthError::WebauthnFailure),
    };
    let session_id = generate_session_id();
    let key = session_id.clone();
    let ghost st = state;
    pending.begin(key, now, username, (state, user_id));
    assert(pending.view() == after_begin(
        old(pending).view(),
        old(pending).ttl(),
        session_id@,
        now,
        user.user(),
        (st, user_id),
    ));
    assert(enrollment_recorded(
        old(pending).view(),
        old(pending).ttl(),
        session_id@,
        now,
        user.user(),
        stored_view(stored),
        pending.view(),
    ));
    Ok((session_id, challenge))
}

/// What finishing an enrollment answers: a refusal in `taken` is passed on;
/// otherwise the user, the user handle and the new credential when the
/// attestation verifies against the pending state, and
/// `RegistrationFailed` when it does not.
pub open spec fn enrollment_finish_result(
    webauthn: Webauthn,
    taken: Result<(Seq<char>, (PasskeyRegistration, Uuid)), AuthError>,
    credential: RegisterPublicKeyCredential,
) -> Result<(Seq<char>, Uuid, Passkey), AuthError> {
    match taken {
        Err(e) => Err(e),
        Ok((user, (state, handle))) => match attestation_outcome(webauthn, credential, state) {
            Some(p) => Ok((user, handle, p)),
            None => Err(AuthError::RegistrationFailed),
        },
    }
}

/// The view of what finishing an enrollment returned.
pub open spec fn enrollment_view(r: Result<(String, Uuid, Passkey), AuthError>) -> Result<
    (Seq<char>, Uuid, Passkey),
    AuthError,
> {
    match r {
        Ok((u, id, p)) => Ok((u@, id, p)),
        Err(e) => Err(e),
    }
}

/// Finishes enrolling a security key: `taken` is what was taken out of the
/// pending enrollments for the session. A refusal there is passed on;
/// otherwise the authenticator's attestation is checked against the
/// pending state, and the user, the user handle and the new credential are
/// returned.
pub fn finish_enrollment(
    party: &RelyingParty,
    taken: Result<(String, (PasskeyRegistration, Uuid)), AuthError>,
    credential: &RegisterPublicKeyCredential,
) -> (r: Result<(String, Uuid, Passkey), AuthError>)
    ensures
        enrollment_view(r) == enrollment_finish_result(
            party.config(),
            crate::pending::outcome_view(taken),
            *credential,
        ),
{
    match taken {
        Err(e) => Err(e),
        Ok((username, (state, user_id))) => match finish_registration(
            &party.webauthn,
            credential,
            &state,
        ) {
            Ok(passkey) => Ok((username, user_id, passkey)),
            Err(_) => Err(AuthError::RegistrationFailed),
        },
    }
}

/// The user's credential record after enrolling `passkey`: the user handle
/// on file is kept (else `handle` is used), and the new credential is
/// appended to those on file.
pub fn enrolled_record(stored: Option<(Uuid, Vec<Passkey>)>, handle: Uuid, passkey: Passkey) -> (r: (
    Uuid,
    Vec<Passkey>,
))
    ensures
        match stored {
            Some((id, credentials)) => r.0 == id && r.1@ == credentials@.push(passkey),
            None => r.0 == handle && r.1@ == seq![passkey],
        },
{
    match stored {
        Some((id, credentials)) => {
            let mut credentials = credentials;
            credentials.push(passkey);
            (id, credentials)
        },
        None => {
            let mut credentials: Vec<Passkey> = Vec::new();
            credentials.push(passkey);
            (handle, credentials)
        },
    }
}

/// A finished login names a pending, approved user: when taking the session
/// `session_id` out of the pending logins `m` at `now` and finishing it with
/// `assertion` succeeds for `user`, then `m` held a challenge under that
/// session that was still live at `now`, issued to an approved user named
/// `user`, and the assertion verifies against that challenge's state with
/// the returned result.
pub proof fn law_finished_login_was_pending(
    webauthn: Webauthn,
    m: Map<Seq<char>, Challenge<(PasskeyAuthentication, ApprovedUser)>>,
    ttl: u64,
    session_id: Seq<char>,
    now: u64,
    assertion: PublicKeyCredential,
)
    ensures
        login_finish_result(webauthn, take_result(m, ttl, session_id, now), assertion) matches Ok(
            (user, result),
        ) ==> {
            &&& m.contains_key(session_id)
            &&& m[session_id].payload.1.user() == user
            &&& is_live(m[session_id], now, ttl)
            &&& assertion_outcome(webauthn, assertion, m[session_id].payload.0) == Some(result)
        },
{
}

/// Two factors before a session: when a login challenge for an approved
/// user's credentials was issued at `issued` under `session_id`, finishing
/// that session at `later` with `assertion` succeeds exactly when the
/// challenge has not expired and the assertion verifies against the
/// challenge's state, and then it succeeds for that user.
pub proof fn law_two_factor_login(
    webauthn: Webauthn,
    user: ApprovedUser,
    before: Map<Seq<char>, Challenge<(PasskeyAuthentication, ApprovedUser)>>,
    ttl: u64,
    session_id: Seq<char>,
    issued: u64,
    later: u64,
    stored: Seq<Passkey>,
    after: Map<Seq<char>, Challenge<(PasskeyAuthentication, ApprovedUser)>>,
    assertion: PublicKeyCredential,
)
    requires
        login_recorded(before, ttl, session_id, issued, user, stored, after),
    ensures
        exists|state: PasskeyAuthentication|
            #![trigger assertion_outcome(webauthn, assertion, state)]
            login_credentials(state) == stored && login_finish_result(
                webauthn,
                take_result(after, ttl, session_id, later),
                assertion,
            ) == if elapsed(issued, later) >= ttl {
                Err::<(Seq<char>, AuthenticationResult), AuthError>(AuthError::ChallengeExpired)
            } else {
                match assertion_outcome(webauthn, assertion, state) {
                    Some(a) => Ok((user.user(), a)),
                    None => Err(AuthError::VerificationFailed),
                }
            },
{
    let state = choose|state: PasskeyAuthentication|
        after == after_begin(before, ttl, session_id, issued, user.user(), (state, user))
            && login_credentials(state) == stored;
    assert(after[session_id] == Challenge {
        created: issued,
        username: user.user(),
        payload: (state, user),
    });
    let _ = assertion_outcome(webauthn, assertion, state);
}

/// An attestation that verifies against the pending enrollment state
/// enrolls the credential it yields, for the pending user and handle; one
/// that does not verify is refused as a failed registration.
pub proof fn law_verified_attestation_enrolls(
    webauthn: Webauthn,
    credential: RegisterPublicKeyCredential,
    state: PasskeyRegistration,
    user: Seq<char>,
    handle: Uuid,
)
    ensures
        attestation_outcome(webauthn, credential, state) matches Some(p) ==> enrollment_finish_result(
            webauthn,
            Ok((user, (state, handle))),
            credential,
        ) == Ok::<(Seq<char>, Uuid, Passkey), AuthError>((user, handle, p)),
        attestation_outcome(webauthn, credential, state) is None ==> enrollment_finish_result(
            webauthn,
            Ok((user, (state, handle))),
            credential,
        ) == Err::<(Seq<char>, Uuid, Passkey), AuthError>(AuthError::RegistrationFailed),
{
}

/// An assertion that verifies against the pending login state logs the
/// pending approved user in with the authentication result; one that does
/// not verify is refused.
pub proof fn law_verified_assertion_logs_in(
    webauthn: Webauthn,
    credential: PublicKeyCredential,
    state: PasskeyAuthentication,
    session_user: Seq<char>,
    user: ApprovedUser,
)
    ensures
        assertion_outcome(webauthn, credential, state) matches Some(a) ==> login_finish_result(
            webauthn,
            Ok((session_user, (state, user))),
            credential,
        ) == Ok::<(Seq<char>, AuthenticationResult), AuthError>((user.user(), a)),
        assertion_outcome(webauthn, credential, state) is None ==> login_finish_result(
            webauthn,
            Ok((session_user, (state, user))),
            credential,
        ) == Err::<(Seq<char>, AuthenticationResult), AuthError>(AuthError::VerificationFailed),
{
}

/// Enrolling again never registers a key already on file: when an
/// enrollment for a user with credentials on file was issued at `issued`
/// under `session_id`, whatever finishing that session at `later` yields is
/// for that user, keeps the stored handle, and is a credential whose id is
/// not among the ids of the credentials on file.
pub proof fn law_enrollment_excludes_enrolled_keys(
    webauthn: Webauthn,
    before: Map<Seq<char>, Challenge<(PasskeyRegistration, Uuid)>>,
    ttl: u64,
    session_id: Seq<char>,
    issued: u64,
    later: u64,
    username: Seq<char>,
    handle: Uuid,
    on_file: Seq<Passkey>,
    after: Map<Seq<char>, Challenge<(PasskeyRegistration, Uuid)>>,
    credential: RegisterPublicKeyCredential,
)
    requires
        enrollment_recorded(before, ttl, session_id, issued, username, Some((handle, on_file)), after),
    ensures
        enrollment_finish_result(webauthn, take_result(after, ttl, session_id, later), credential)
            matches Ok((u, h, p)) ==> u == username && h == handle && !on_file.map_values(
            |q: Passkey| cred_id_of(q),
        ).contains(cred_id_of(p)),
{
    let (state, h) = choose|state: PasskeyRegistration, h: Uuid|
        after == after_begin(before, ttl, session_id, issued, username, (state, h)) && (Some((handle, on_file)) matches Some((id, _)) ==> h == id)
            && refuses_ids(state, excluded_ids(Some((handle, on_file))));
    assert(after[session_id] == Challenge { created: issued, username: username, payload: (state, h) });
    let _ = attestation_outcome(webauthn, credential, state);
}

} // verus!
