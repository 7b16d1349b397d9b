//! The server's broadcast tick.
//!
//! On a fixed interval the authoritative position of every connected
//! account is recomputed from the time since its last update and the
//! constant walk speed, stamped, and pushed as one `WorldUpdate` to every
//! connected installation.

use vstd::prelude::*;

use crate::clock::MAX_TIMESTAMP;
use crate::motion::{
    extrapolate_profile, profile_motion_wf, spec_extrapolate, MAX_ELAPSED,
};
use crate::network::{sat_sub, spec_sat_sub};
use crate::protocol::{
    duplicate_profiles, profile_seq_view, ResponseView, ServerResponse, UserProfile,
    UserProfileView,
};
use crate::registry::ConnectedClients;

verus! {

/// How often the broadcast loop fires, in microseconds.
pub const TICK_INTERVAL_MICROS: i64 = 100_000;

/// How long a profile walks on this tick: the time since its last
/// update, clamped to what one motion step accepts; a profile never
/// updated before walks nothing.
pub open spec fn spec_tick_elapsed(p: UserProfileView, now: i64) -> i64 {
    match p.last_update_timestamp {
        None => 0,
        Some(t) => {
            let d = spec_sat_sub(now, t);
            if d < 0 {
                0
            } else if d > MAX_ELAPSED {
                MAX_ELAPSED
            } else {
                d
            }
        },
    }
}

/// One profile after the tick: walked forward and stamped `now`.
pub open spec fn spec_advance(p: UserProfileView, now: i64) -> UserProfileView {
    UserProfileView {
        last_update_timestamp: Some(now),
        ..spec_extrapolate(p, spec_tick_elapsed(p, now))
    }
}

/// Recomputes every profile's authoritative position for one tick.
pub fn advance_profiles(profiles: &mut Vec<UserProfile>, now: i64)
    requires
        0 <= now <= MAX_TIMESTAMP,
        forall|i: int|
            0 <= i < old(profiles)@.len() ==> profile_motion_wf(#[trigger] old(profiles)@[i]@),
    ensures
        final(profiles)@.len() == old(profiles)@.len(),
        forall|i: int|
            0 <= i < final(profiles)@.len() ==> #[trigger] final(profiles)@[i]@ == spec_advance(
                old(profiles)@[i]@,
                now,
            ),
        forall|i: int|
            0 <= i < final(profiles)@.len() ==> profile_motion_wf(#[trigger] final(profiles)@[i]@),
{
    let mut i: usize = 0;
    while i < profiles.len()
        invariant
            0 <= now <= MAX_TIMESTAMP,
            i <= profiles@.len(),
            profiles@.len() == old(profiles)@.len(),
            forall|p: int|
                i <= p < profiles@.len() ==> #[trigger] profiles@[p]@ == old(profiles)@[p]@,
            forall|p: int|
                i <= p < profiles@.len() ==> profile_motion_wf(#[trigger] profiles@[p]@),
            forall|p: int|
                0 <= p < i ==> #[trigger] profiles@[p]@ == spec_advance(old(profiles)@[p]@, now),
            forall|p: int| 0 <= p < i ==> profile_motion_wf(#[trigger] profiles@[p]@),
        decreases profiles@.len() - i,
    {
        let mut p = profiles.remove(i);
        let elapsed = match p.last_update_timestamp {
            None => 0,
            Some(t) => {
                let d = sat_sub(now, t);
                if d < 0 {
                    0
                } else if d > MAX_ELAPSED {
                    MAX_ELAPSED
                } else {
                    d
                }
            },
        };
        extrapolate_profile(&mut p, elapsed);
        p.last_update_timestamp = Some(now);
        profiles.insert(i, p);
        i = i + 1;
    }
}

/// One broadcast tick: advances every profile, stamps the snapshot
/// `now`, and pushes it to every connected installation. Returns the
/// snapshot that went out and how many connections it was handed to.
pub fn tick(
    profiles: &mut Vec<UserProfile>,
    registry: &ConnectedClients,
    now: i64,
) -> (r: (ServerResponse, usize))
    requires
        registry.wf(),
        0 <= now <= MAX_TIMESTAMP,
        forall|i: int|
            0 <= i < old(profiles)@.len() ==> profile_motion_wf(#[trigger] old(profiles)@[i]@),
    ensures
        final(profiles)@.len() == old(profiles)@.len(),
        forall|i: int|
            0 <= i < final(profiles)@.len() ==> #[trigger] final(profiles)@[i]@ == spec_advance(
                old(profiles)@[i]@,
                now,
            ),
        forall|i: int|
            0 <= i < final(profiles)@.len() ==> profile_motion_wf(#[trigger] final(profiles)@[i]@),
        r.0@ == (ResponseView::WorldUpdate {
            timestamp: now,
            profiles: profile_seq_view(final(profiles)@),
        }),
        r.1 == registry.channels().dom().len(),
{
    advance_profiles(profiles, now);
    let message = ServerResponse::WorldUpdate {
        timestamp: now,
        profiles: duplicate_profiles(profiles),
    };
    let reached = registry.broadcast(&message);
    (message, reached)
}

} // verus!
