//! Identities: installations (one per client install) and accounts.

use vstd::prelude::*;

verus! {

/// Numeric identifier of an authenticated person. One account may own
/// several installations (multi-device); accounts are assigned by an
/// external linkage event, never created here.
pub type AccountId = i64;

/// Opaque 128-bit identifier of one client install. Created server-side on
/// the first connect that carries no prior id, adopted by the client, and
/// replayed on every reconnect thereafter.
#[derive(Clone, Copy, PartialEq, Eq, Structural, Debug)]
pub struct InstallationId {
    pub value: u128,
}

/// Creates a fresh random installation id for a client that connected
/// without one.
///
/// Relies on uuid's `Uuid::new_v4`: a freshly generated random identifier.
/// Nothing is promised of the value; callers treat any result alike.
#[verifier::external_body]
pub fn fresh_installation_id() -> InstallationId {
    InstallationId { value: uuid::Uuid::new_v4().as_u128() }
}

} // verus!
