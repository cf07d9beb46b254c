use vstd::prelude::*;

verus! {

// The low-level WebAuthn/FIDO2 cryptographic verification is an external
// collaborator: the library consumes it through the trusted declarations
// below and treats every value it produces as opaque, to be round-tripped
// unchanged. Nothing is promised of challenges (random), of verification
// verdicts (they depend on the client's signature), or of the clock.

#[verifier::external_type_specification]
#[verifier::external_body]
pub struct ExWebauthn(webauthn_rs::Webauthn);

#[verifier::external_type_specification]
#[verifier::external_body]
pub struct ExCreationChallengeResponse(webauthn_rs::prelude::CreationChallengeResponse);

#[verifier::external_type_specification]
#[verifier::external_body]
pub struct ExRequestChallengeResponse(webauthn_rs::prelude::RequestChallengeResponse);

#[verifier::external_type_specification]
#[verifier::external_body]
pub struct ExPasskeyRegistration(webauthn_rs::prelude::PasskeyRegistration);

#[verifier::external_type_specification]
#[verifier::external_body]
pub struct ExPasskeyAuthentication(webauthn_rs::prelude::PasskeyAuthentication);

#[verifier::external_type_specification]
#[verifier::external_body]
pub struct ExPasskey(webauthn_rs::prelude::Passkey);

#[verifier::external_type_specification]
#[verifier::external_body]
pub struct ExRegisterPublicKeyCredential(webauthn_rs::prelude::RegisterPublicKeyCredential);

#[verifier::external_type_specification]
#[verifier::external_body]
pub struct ExPublicKeyCredential(webauthn_rs::prelude::PublicKeyCredential);

#[verifier::external_type_specification]
#[verifier::external_body]
pub struct ExAuthenticationResult(webauthn_rs::prelude::AuthenticationResult);

#[verifier::external_type_specification]
#[verifier::external_body]
pub struct ExWebauthnError(webauthn_rs::prelude::WebauthnError);

#[verifier::external_type_specification]
#[verifier::external_body]
pub struct ExSerdeJsonError(serde_json::Error);

/// Relies on uuid::Uuid::new_v4 for a fresh random user identifier;
/// nothing can be promised of a random value — in particular the store,
/// not this call, is what rules out identifier collisions. The call
/// aborts if the operating system's randomness source fails: an
/// environmental, input-independent failure that no precondition could
/// exclude.
#[verifier::external_body]
pub(crate) fn fresh_user_id() -> u128 {
    uuid::Uuid::new_v4().as_u128()
}

/// Relies on chrono::Utc::now for the registration timestamp, in
/// microseconds since the Unix epoch; nothing can be promised of a
/// clock. The call aborts if the system clock reads before the Unix
/// epoch: an environmental, input-independent failure that no
/// precondition could exclude.
#[verifier::external_body]
pub(crate) fn now_micros() -> i64 {
    chrono::Utc::now().timestamp_micros()
}

/// Relies on Webauthn::start_passkey_registration: produces a fresh
/// random challenge together with the opaque state that the finish step
/// must be handed back; the user name is derived from the identifier.
#[verifier::external_body]
pub(crate) fn webauthn_start_registration(
    webauthn: &webauthn_rs::Webauthn,
    user_id: u128,
) -> Result<
    (webauthn_rs::prelude::CreationChallengeResponse, webauthn_rs::prelude::PasskeyRegistration),
    webauthn_rs::prelude::WebauthnError,
> {
    let id = uuid::Uuid::from_u128(user_id);
    let name = format!("user-{}", id);
    webauthn.start_passkey_registration(id, &name, "New User", None)
}

/// Relies on Webauthn::finish_passkey_registration: verifies the client's
/// signed response against the pending registration state, returning the
/// new credential on success and an error on challenge/signature mismatch.
#[verifier::external_body]
pub(crate) fn webauthn_finish_registration(
    webauthn: &webauthn_rs::Webauthn,
    req: &webauthn_rs::prelude::RegisterPublicKeyCredential,
    state: &webauthn_rs::prelude::PasskeyRegistration,
) -> Result<webauthn_rs::prelude::Passkey, webauthn_rs::prelude::WebauthnError> {
    webauthn.finish_passkey_registration(req, state)
}

/// Relies on Webauthn::start_passkey_authentication: produces a fresh
/// random challenge covering all of the user's credentials, together with
/// the opaque state for the finish step.
#[verifier::external_body]
pub(crate) fn webauthn_start_authentication(
    webauthn: &webauthn_rs::Webauthn,
    creds: &Vec<webauthn_rs::prelude::Passkey>,
) -> Result<
    (webauthn_rs::prelude::RequestChallengeResponse, webauthn_rs::prelude::PasskeyAuthentication),
    webauthn_rs::prelude::WebauthnError,
> {
    webauthn.start_passkey_authentication(creds)
}

/// Relies on Webauthn::finish_passkey_authentication: verifies the
/// client's signed response against the pending authentication state; the
/// verdict depends on the client's signature, so nothing is promised of it.
#[verifier::external_body]
pub(crate) fn webauthn_finish_authentication(
    webauthn: &webauthn_rs::Webauthn,
    req: &webauthn_rs::prelude::PublicKeyCredential,
    state: &webauthn_rs::prelude::PasskeyAuthentication,
) -> Result<webauthn_rs::prelude::AuthenticationResult, webauthn_rs::prelude::WebauthnError> {
    webauthn.finish_passkey_authentication(req, state)
}

/// Relies on AuthenticationResult::user_verified: the verifier's
/// user-verification flag, evaluated only after counter bookkeeping.
#[verifier::external_body]
pub(crate) fn auth_result_user_verified(
    res: &webauthn_rs::prelude::AuthenticationResult,
) -> bool {
    res.user_verified()
}

/// Relies on Passkey::update_credential: updates the passkey's internal
/// signature counter and backup state from an authentication result,
/// reporting Some(true) when something changed and must be re-persisted,
/// and None when the result belongs to a different credential.
#[verifier::external_body]
pub(crate) fn passkey_counter_update(
    passkey: &mut webauthn_rs::prelude::Passkey,
    res: &webauthn_rs::prelude::AuthenticationResult,
) -> Option<bool> {
    passkey.update_credential(res)
}

/// Relies on Passkey::cred_id: the credential's unique identifier bytes.
#[verifier::external_body]
pub(crate) fn passkey_cred_id(passkey: &webauthn_rs::prelude::Passkey) -> Vec<u8> {
    passkey.cred_id().as_ref().to_vec()
}

/// Relies on serde_json::to_vec: the credential's opaque serialized form,
/// the only shape in which this subsystem stores a credential.
#[verifier::external_body]
pub(crate) fn passkey_to_bytes(
    passkey: &webauthn_rs::prelude::Passkey,
) -> Result<Vec<u8>, serde_json::Error> {
    serde_json::to_vec(passkey)
}

/// Relies on serde_json::from_slice: parses a stored credential blob that
/// serialization produced earlier.
#[verifier::external_body]
pub(crate) fn passkey_from_bytes(
    blob: &Vec<u8>,
) -> Result<webauthn_rs::prelude::Passkey, serde_json::Error> {
    serde_json::from_slice(blob.as_slice())
}

} // verus!
