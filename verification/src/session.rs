use vstd::prelude::*;

use webauthn_rs::prelude::{PasskeyAuthentication, PasskeyRegistration};

verus! {

/// The in-flight ceremony state of one client session: a tagged union of
/// the two ceremonies. The verifier-produced payloads are opaque; this
/// subsystem round-trips them unchanged to the verifier's finish step.
pub enum ChallengeState {
    RegistrationInFlight { user_id: u128, reg_state: PasskeyRegistration },
    AuthenticationInFlight { user_id: u128, auth_state: PasskeyAuthentication },
}

/// Per-client-session storage: at most one in-flight ceremony at a time
/// (starting a new ceremony evicts any prior one, regardless of its kind)
/// and the identity the session is logged in as. The state lives only
/// here, never in the database, and is consumed exactly once.
pub struct SessionStore {
    pub pending: Option<ChallengeState>,
    pub user: Option<u128>,
}

impl SessionStore {
    /// A fresh session: no in-flight ceremony, nobody logged in.
    pub fn new() -> (s: SessionStore)
        ensures
            s.pending is None,
            s.user is None,
    {
        SessionStore { pending: None, user: None }
    }

    /// Unconditionally overwrites any existing ceremony state with a
    /// registration in flight.
    pub fn begin_registration(&mut self, user_id: u128, reg_state: PasskeyRegistration)
        ensures
            final(self).pending == Some(
                ChallengeState::RegistrationInFlight { user_id, reg_state },
            ),
            final(self).user == old(self).user,
    {
        self.pending = Some(ChallengeState::RegistrationInFlight { user_id, reg_state });
    }

    /// Unconditionally overwrites any existing ceremony state with an
    /// authentication in flight.
    pub fn begin_authentication(&mut self, user_id: u128, auth_state: PasskeyAuthentication)
        ensures
            final(self).pending == Some(
                ChallengeState::AuthenticationInFlight { user_id, auth_state },
            ),
            final(self).user == old(self).user,
    {
        self.pending = Some(ChallengeState::AuthenticationInFlight { user_id, auth_state });
    }

    /// Atomically removes and returns the current ceremony state: the
    /// single consume. A second take, with no new ceremony begun in
    /// between, returns `None` — a replayed finish request finds nothing.
    pub fn take(&mut self) -> (r: Option<ChallengeState>)
        ensures
            r == old(self).pending,
            final(self).pending is None,
            final(self).user == old(self).user,
    {
        self.pending.take()
    }

    /// Records the authenticated user as this session's logged-in
    /// identity.
    pub fn set_user(&mut self, user_id: u128)
        ensures
            final(self).user == Some(user_id),
            final(self).pending == old(self).pending,
    {
        self.user = Some(user_id);
    }

    /// The identity this session is logged in as, if any.
    pub fn current_user(&self) -> (r: Option<u128>)
        ensures
            r == self.user,
    {
        self.user
    }
}

} // verus!
