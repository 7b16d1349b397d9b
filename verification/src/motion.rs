//! The motion model shared by both endpoints.
//!
//! A profile moves at a constant walk speed in the direction of its last
//! reported horizontal input. The server advances every profile on each
//! broadcast tick; a client runs the same formula between snapshots to
//! dead-reckon remote players. Positions live in a clamped band so the
//! arithmetic can never overflow.

use vstd::prelude::*;

use crate::protocol::{UserProfile, UserProfileView};

verus! {

/// Walk speed, in position units per second.
pub const WALK_SPEED: i64 = 32;

/// Microseconds per second.
pub const MICROS_PER_SECOND: i64 = 1_000_000;

/// Largest elapsed time one motion step accepts, in microseconds: a full
/// day, far beyond any real frame or tick.
pub const MAX_ELAPSED: i64 = 86_400_000_000;

/// Positions are kept within this many units of the origin.
pub const MAX_POSITION: i64 = 0x1_0000_0000;

/// A position pushed back into the allowed band.
pub open spec fn clamp_position(v: int) -> int {
    if v < -MAX_POSITION {
        -MAX_POSITION as int
    } else if v > MAX_POSITION {
        MAX_POSITION as int
    } else {
        v
    }
}

/// How far a profile walks in `elapsed` microseconds under `input`.
pub open spec fn spec_displacement(input: i64, elapsed: i64) -> int {
    (input as int) * (((WALK_SPEED as int) * (elapsed as int)) / (MICROS_PER_SECOND as int))
}

/// Where a profile stands after walking from `x` for `elapsed`
/// microseconds under `input`.
pub open spec fn spec_walk_position(x: i64, input: i64, elapsed: i64) -> int {
    clamp_position(x + spec_displacement(input, elapsed))
}

/// A profile whose motion fields the model accepts: the input is a
/// direction and the position sits in the clamped band.
pub open spec fn profile_motion_wf(p: UserProfileView) -> bool {
    &&& -1 <= p.horizontal_input <= 1
    &&& -MAX_POSITION <= p.x_offset <= MAX_POSITION
}

/// One motion step. With zero elapsed time the position is returned
/// unchanged, however often the step is repeated.
pub fn walk_position(x: i64, input: i64, elapsed_micros: i64) -> (r: i64)
    requires
        -1 <= input <= 1,
        0 <= elapsed_micros <= MAX_ELAPSED,
        -MAX_POSITION <= x <= MAX_POSITION,
    ensures
        r == spec_walk_position(x, input, elapsed_micros),
        -MAX_POSITION <= r <= MAX_POSITION,
        elapsed_micros == 0 ==> r == x,
{
    let steps = (WALK_SPEED * elapsed_micros) / MICROS_PER_SECOND;
    proof {
        vstd::arithmetic::div_mod::lemma_div_pos_is_pos(
            WALK_SPEED as int * elapsed_micros as int,
            MICROS_PER_SECOND as int,
        );
        vstd::arithmetic::div_mod::lemma_div_is_ordered(
            WALK_SPEED as int * elapsed_micros as int,
            WALK_SPEED as int * MAX_ELAPSED as int,
            MICROS_PER_SECOND as int,
        );
    }
    proof {
        assert(-(steps as int) <= (input as int) * (steps as int) <= steps as int)
            by (nonlinear_arith)
            requires
                -1 <= input <= 1,
                steps >= 0,
        ;
    }
    let moved = x + input * steps;
    if moved < -MAX_POSITION {
        -MAX_POSITION
    } else if moved > MAX_POSITION {
        MAX_POSITION
    } else {
        moved
    }
}

/// The view of a profile after one motion step of `elapsed` microseconds.
pub open spec fn spec_extrapolate(p: UserProfileView, elapsed: i64) -> UserProfileView {
    UserProfileView {
        x_offset: spec_walk_position(p.x_offset, p.horizontal_input, elapsed) as i64,
        ..p
    }
}

/// Dead-reckons one profile in place: walks it from its last known
/// position in the direction of its last known input.
pub fn extrapolate_profile(profile: &mut UserProfile, elapsed_micros: i64)
    requires
        profile_motion_wf(old(profile)@),
        0 <= elapsed_micros <= MAX_ELAPSED,
    ensures
        final(profile)@ == spec_extrapolate(old(profile)@, elapsed_micros),
        profile_motion_wf(final(profile)@),
        elapsed_micros == 0 ==> final(profile)@ == old(profile)@,
{
    profile.x_offset = walk_position(profile.x_offset, profile.horizontal_input, elapsed_micros);
}

/// Zero elapsed time moves nothing: dead reckoning is idempotent while
/// the clock stands still, no matter how often it runs.
pub proof fn lemma_dead_reckoning_zero_elapsed(p: UserProfileView)
    requires
        profile_motion_wf(p),
    ensures
        spec_extrapolate(p, 0) == p,
{
}

} // verus!
