//! The key material of one session.

use vstd::prelude::*;

verus! {

/// What a session needs to seal and open its packets.
#[derive(Debug, Clone)]
pub struct SessionKeys {
    /// Identifies the session; not part of any packet.
    pub session_id: Vec<u8>,
    /// Key of the packet signature.
    pub sign_key: [u8; 32],
    /// Key of the payload cipher.
    pub aead_key: [u8; 32],
}

impl SessionKeys {
    /// The key material as given.
    pub fn new(session_id: Vec<u8>, sign_key: [u8; 32], aead_key: [u8; 32]) -> (keys: Self)
        ensures
            keys.session_id == session_id,
            keys.sign_key == sign_key,
            keys.aead_key == aead_key,
    {
        SessionKeys { session_id, sign_key, aead_key }
    }
}

} // verus!
