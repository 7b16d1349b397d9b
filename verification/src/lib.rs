//! Connection, identity and synchronization core for a client/server game.
//!
//! The library covers the protocol messages and their binary wire format,
//! the client's login state machine and reconnect policy, the server's
//! connection registry with its account fan-out indices, round-trip clock
//! statistics, and the dead-reckoning motion model shared by both sides.
//! Socket, database and rendering plumbing stay outside; the library hands
//! them plain values and takes plain values back.

pub mod channel;
pub mod clock;
pub mod codec;
pub mod ids;
pub mod kvmap;
pub mod motion;
pub mod network;
pub mod protocol;
pub mod registry;
pub mod session;
pub mod sim;
pub mod world;

use vstd::prelude::*;

verus! {

/// Protocol version string carried by every authenticate request.
pub open spec fn spec_protocol_version() -> Seq<char> {
    "0.0.1"@
}

/// The version string the client sends and the server accepts.
pub fn protocol_version() -> (s: &'static str)
    ensures
        s@ == spec_protocol_version(),
{
    "0.0.1"
}

} // verus!
