//! Sign-ins that have begun and not yet come back.
use vstd::hash_map::StringHashMap;
use vstd::prelude::*;

use crate::error::Error;

verus! {

/// What a sign-in needs when it comes back.
#[derive(Debug, PartialEq, Eq)]
pub struct PendingSignIn {
    /// The install that is signing in.
    pub server_id: String,
    /// The verifier whose challenge the sign-in was begun with.
    pub verifier: String,
    /// The address the sign-in comes back to.
    pub redirect_uri: String,
    /// Where the code is exchanged.
    pub token_endpoint: String,
    /// The client that was registered.
    pub client_id: String,
    /// Its secret, where one was issued.
    pub client_secret: Option<String>,
}

impl Clone for PendingSignIn {
    fn clone(&self) -> (r: PendingSignIn)
        ensures
            r == *self,
    {
        PendingSignIn {
            server_id: self.server_id.clone(),
            verifier: self.verifier.clone(),
            redirect_uri: self.redirect_uri.clone(),
            token_endpoint: self.token_endpoint.clone(),
            client_id: self.client_id.clone(),
            client_secret: match &self.client_secret {
                Some(secret) => Some(secret.clone()),
                None => None,
            },
        }
    }
}

/// The sign-ins that have begun, by the state each was begun with.
pub struct OAuthFlow {
    pending: StringHashMap<PendingSignIn>,
}

impl View for OAuthFlow {
    type V = Map<Seq<char>, PendingSignIn>;

    closed spec fn view(&self) -> Map<Seq<char>, PendingSignIn> {
        self.pending@
    }
}

impl OAuthFlow {
    /// A flow with no sign-in begun.
    #[must_use]
    pub fn new() -> (r: OAuthFlow)
        ensures
            r@ == Map::<Seq<char>, PendingSignIn>::empty(),
    {
        OAuthFlow { pending: StringHashMap::new() }
    }

    /// How many sign-ins have begun and not come back.
    #[must_use]
    pub fn pending_count(&self) -> (r: usize)
        ensures
            r == self@.dom().len(),
    {
        self.pending.len()
    }

    /// Parks a sign-in under the state it was begun with.
    pub fn park(&mut self, state: String, sign_in: PendingSignIn)
        ensures
            final(self)@ == old(self)@.insert(state@, sign_in),
    {
        self.pending.insert(state, sign_in);
    }

    /// Takes the sign-in that was begun with `state`. A state that was never
    /// issued, or has come back already, is refused.
    pub fn take(&mut self, state: &str) -> (r: Result<PendingSignIn, Error>)
        ensures
            final(self)@ == old(self)@.remove(state@),
            if old(self)@.contains_key(state@) {
                r == Ok::<PendingSignIn, Error>(old(self)@[state@])
            } else {
                r matches Err(e) && unknown_state(e)
            },
    {
        let found = match self.pending.get(state) {
            Some(sign_in) => Some(sign_in.clone()),
            None => None,
        };
        self.pending.remove(state);
        match found {
            Some(sign_in) => Ok(sign_in),
            None => Err(Error::malformed("no sign-in was begun with this state".to_owned())),
        }
    }
}

/// Whether an error says that no sign-in was begun with a state.
pub open spec fn unknown_state(error: Error) -> bool {
    error matches Error::MalformedResponse { detail } && detail@
        == "no sign-in was begun with this state"@
}

/// A state is good for one sign-in: what was parked under it comes back once,
/// and then the state is as if it had never been issued. Other sign-ins are
/// not touched.
pub proof fn a_state_is_good_once(
    before: Map<Seq<char>, PendingSignIn>,
    state: Seq<char>,
    sign_in: PendingSignIn,
    other: Seq<char>,
)
    requires
        other != state,
    ensures
        before.insert(state, sign_in)[state] == sign_in,
        !before.insert(state, sign_in).remove(state).contains_key(state),
        before.insert(state, sign_in).remove(state).contains_key(other) <==> before.contains_key(
            other,
        ),
        before.contains_key(other) ==> before.insert(state, sign_in).remove(state)[other]
            == before[other],
{
}

} // verus!
