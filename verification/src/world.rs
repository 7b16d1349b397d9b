//! The client's view of the shared world, advanced once per frame.
//!
//! Each step moves the player from the held input, sends a rate-limited
//! position report, and brings the remote players up to date: from the
//! newest snapshot when one arrived, by dead reckoning otherwise. Remote
//! values come off the wire, so every snapshot profile is pushed back
//! into the motion model's bounds before it is used.

use vstd::prelude::*;

use crate::motion::{
    clamp_position, extrapolate_profile, profile_motion_wf, spec_extrapolate, spec_walk_position,
    walk_position, MAX_ELAPSED,
};
use crate::clock::MAX_TIMESTAMP;
use crate::network::{sat_sub, spec_sat_sub};
use crate::protocol::{
    profile_seq_view, Inputs, RequestView, ServerRequest, UserProfile, UserProfileView,
};

verus! {

/// Minimum spacing of outbound position reports, in microseconds.
pub const UPDATE_INTERVAL_MICROS: i64 = 100_000;

/// A wire profile pushed back into the motion model's bounds: the input
/// reduced to a direction, the position clamped into the world band.
pub open spec fn spec_sanitize(p: UserProfileView) -> UserProfileView {
    UserProfileView {
        horizontal_input: if p.horizontal_input < -1 {
            -1i64
        } else if p.horizontal_input > 1 {
            1i64
        } else {
            p.horizontal_input
        },
        x_offset: clamp_position(p.x_offset as int) as i64,
        ..p
    }
}

/// A snapshot profile as it enters the table: sanitized, then walked
/// forward by the snapshot's age.
pub open spec fn spec_admit(p: UserProfileView, elapsed: i64) -> UserProfileView {
    spec_extrapolate(spec_sanitize(p), elapsed)
}

/// The player table with one profile written over its entry, or appended
/// if it has none. The first entry with the profile's id is the one
/// replaced.
pub open spec fn spec_upsert(players: Seq<UserProfileView>, p: UserProfileView) -> Seq<
    UserProfileView,
>
    decreases players.len(),
{
    if players.len() == 0 {
        seq![p]
    } else if players[0].id == p.id {
        seq![p] + players.subrange(1, players.len() as int)
    } else {
        seq![players[0]] + spec_upsert(players.subrange(1, players.len() as int), p)
    }
}

/// The player table after a snapshot is folded in, profile by profile in
/// snapshot order. Players the snapshot does not mention keep their last
/// known state.
pub open spec fn spec_apply_snapshot(
    players: Seq<UserProfileView>,
    snap: Seq<UserProfileView>,
    elapsed: i64,
) -> Seq<UserProfileView>
    decreases snap.len(),
{
    if snap.len() == 0 {
        players
    } else {
        spec_apply_snapshot(
            spec_upsert(players, spec_admit(snap[0], elapsed)),
            snap.subrange(1, snap.len() as int),
            elapsed,
        )
    }
}

/// Every player dead-reckoned by the same elapsed time.
pub open spec fn spec_extrapolate_all(players: Seq<UserProfileView>, elapsed: i64) -> Seq<
    UserProfileView,
> {
    players.map_values(|p: UserProfileView| spec_extrapolate(p, elapsed))
}

/// How old a snapshot is when consumed, clamped to what one motion step
/// accepts.
pub open spec fn spec_snapshot_age(now: i64, timestamp: i64) -> i64 {
    let d = spec_sat_sub(now, timestamp);
    if d < 0 {
        0
    } else if d > MAX_ELAPSED {
        MAX_ELAPSED
    } else {
        d
    }
}

/// The player's own position after one step: walked, then kept on the
/// near side of the world's left edge.
pub open spec fn spec_own_position(x: i64, input: i64, elapsed: i64) -> i64 {
    let walked = spec_walk_position(x, input, elapsed);
    if walked < 0 {
        0
    } else {
        walked as i64
    }
}

/// Whether a position report is due at `now`.
pub open spec fn spec_report_due(last_update: Option<i64>, now: i64) -> bool {
    match last_update {
        None => true,
        Some(t) => t + UPDATE_INTERVAL_MICROS <= now,
    }
}

/// The client's world state.
pub struct ClientWorld {
    /// The player's own horizontal position.
    pub x_offset: i64,
    /// Last known state of every remote player.
    pub players: Vec<UserProfile>,
    /// When the last position report went out.
    pub last_update: Option<i64>,
}

impl ClientWorld {
    /// Positions and inputs inside the motion model, timestamps inside
    /// the clock bounds.
    pub open spec fn wf(self) -> bool {
        &&& 0 <= self.x_offset <= crate::motion::MAX_POSITION
        &&& forall|i: int|
            0 <= i < self.players@.len() ==> profile_motion_wf(
                #[trigger] self.players@[i]@,
            )
        &&& match self.last_update {
            None => true,
            Some(t) => 0 <= t <= MAX_TIMESTAMP,
        }
    }

    /// An empty world at the origin.
    pub fn new() -> (r: ClientWorld)
        ensures
            r.wf(),
            r.x_offset == 0i64,
            r.players@.len() == 0,
            r.last_update is None,
    {
        ClientWorld { x_offset: 0, players: Vec::new(), last_update: None }
    }

    /// Writes one profile over its entry, or appends it.
    fn upsert_player(&mut self, profile: UserProfile)
        requires
            profile_motion_wf(profile@),
            forall|i: int|
                0 <= i < old(self).players@.len() ==> profile_motion_wf(
                    #[trigger] old(self).players@[i]@,
                ),
        ensures
            final(self).x_offset == old(self).x_offset,
            final(self).last_update == old(self).last_update,
            profile_seq_view(final(self).players@) == spec_upsert(
                profile_seq_view(old(self).players@),
                profile@,
            ),
            forall|i: int|
                0 <= i < final(self).players@.len() ==> profile_motion_wf(
                    #[trigger] final(self).players@[i]@,
                ),
    {
        let ghost pv = profile_seq_view(self.players@);
        let mut j: usize = 0;
        while j < self.players.len()
            invariant
                *self == *old(self),
                pv == profile_seq_view(self.players@),
                profile_motion_wf(profile@),
                forall|p: int| 0 <= p < pv.len() ==> profile_motion_wf(#[trigger] pv[p]),
                j <= self.players@.len(),
                forall|p: int| 0 <= p < j ==> #[trigger] self.players@[p].id != profile.id,
            decreases self.players@.len() - j,
        {
            if self.players[j].id == profile.id {
                proof {
                    assert(pv.len() == self.players@.len());
                    assert forall|q: int| 0 <= q < j implies pv[q].id != profile@.id by {
                        assert(pv[q] == self.players@[q]@);
                    }
                    assert(pv[j as int] == self.players@[j as int]@);
                    lemma_upsert_at(pv, profile@, j as int);
                }
                self.players.remove(j);
                self.players.insert(j, profile);
                proof {
                    assert(self.players@ =~= old(self).players@.update(j as int, profile));
                    assert(profile_seq_view(self.players@) =~= pv.update(j as int, profile@));
                    assert forall|q: int| 0 <= q < self.players@.len() implies profile_motion_wf(
                        #[trigger] self.players@[q]@,
                    ) by {
                        assert(self.players@[q]@ == pv.update(j as int, profile@)[q]);
                        if q != j {
                            assert(profile_motion_wf(pv[q]));
                        }
                    }
                }
                return ;
            }
            j = j + 1;
        }
        proof {
            assert(pv.len() == self.players@.len());
            assert forall|q: int| 0 <= q < pv.len() implies pv[q].id != profile@.id by {
                assert(pv[q] == self.players@[q]@);
            }
            lemma_upsert_append(pv, profile@);
        }
        self.players.push(profile);
        proof {
            assert(profile_seq_view(self.players@) =~= pv.push(profile@));
            assert forall|q: int| 0 <= q < self.players@.len() implies profile_motion_wf(
                #[trigger] self.players@[q]@,
            ) by {
                if q < old(self).players@.len() {
                    assert(profile_motion_wf(old(self).players@[q]@));
                }
            }
        }
    }

    /// One frame of the update loop. `horizontal_input` is the held
    /// direction, `elapsed_micros` the frame time, `now` the corrected
    /// clock, `snapshot` the newest unconsumed world update, if any.
    /// Moves the player, folds in the snapshot or dead-reckons every
    /// remote player, and returns the position report to enqueue when
    /// one is due.
    pub fn update_step(
        &mut self,
        horizontal_input: i64,
        elapsed_micros: i64,
        now: i64,
        snapshot: Option<(i64, Vec<UserProfile>)>,
    ) -> (request: Option<ServerRequest>)
        requires
            old(self).wf(),
            -1 <= horizontal_input <= 1,
            0 <= elapsed_micros <= MAX_ELAPSED,
            0 <= now <= MAX_TIMESTAMP,
        ensures
            final(self).wf(),
            final(self).x_offset == spec_own_position(
                old(self).x_offset,
                horizontal_input,
                elapsed_micros,
            ),
            spec_report_due(old(self).last_update, now) ==> final(self).last_update == Some(now)
                && (match request {
                Some(r) => r@ == (RequestView::Update {
                    new_inputs: Some(
                        Inputs { horizontal_movement: horizontal_input, interact: false },
                    ),
                    x_offset: final(self).x_offset,
                    timestamp: now,
                }),
                None => false,
            }),
            !spec_report_due(old(self).last_update, now) ==> (request is None)
                && final(self).last_update == old(self).last_update,
            match snapshot {
                Some(snap) => profile_seq_view(final(self).players@) == spec_apply_snapshot(
                    profile_seq_view(old(self).players@),
                    profile_seq_view(snap.1@),
                    spec_snapshot_age(now, snap.0),
                ),
                None => profile_seq_view(final(self).players@) == spec_extrapolate_all(
                    profile_seq_view(old(self).players@),
                    elapsed_micros,
                ),
            },
    {
        let walked = walk_position(self.x_offset, horizontal_input, elapsed_micros);
        self.x_offset = if walked < 0 {
            0
        } else {
            walked
        };
        let due = match self.last_update {
            None => true,
            Some(t) => t + UPDATE_INTERVAL_MICROS <= now,
        };
        let request = if due {
            self.last_update = Some(now);
            Some(
                ServerRequest::Update {
                    new_inputs: Some(
                        Inputs { horizontal_movement: horizontal_input, interact: false },
                    ),
                    x_offset: self.x_offset,
                    timestamp: now,
                },
            )
        } else {
            None
        };
        let ghost x_now = self.x_offset;
        let ghost lu_now = self.last_update;
        match snapshot {
            Some((timestamp, profiles)) => {
                let age = {
                    let d = sat_sub(now, timestamp);
                    if d < 0 {
                        0
                    } else if d > MAX_ELAPSED {
                        MAX_ELAPSED
                    } else {
                        d
                    }
                };
                let ghost snap0 = profile_seq_view(profiles@);
                let ghost before = profile_seq_view(self.players@);
                let mut remaining = profiles;
                while remaining.len() > 0
                    invariant
                        0 <= age <= MAX_ELAPSED,
                        self.x_offset == x_now,
                        self.last_update == lu_now,
                        forall|p: int|
                            0 <= p < self.players@.len() ==> profile_motion_wf(
                                #[trigger] self.players@[p]@,
                            ),
                        spec_apply_snapshot(
                            profile_seq_view(self.players@),
                            profile_seq_view(remaining@),
                            age,
                        ) == spec_apply_snapshot(before, snap0, age),
                    decreases remaining@.len(),
                {
                    let ghost rem0 = profile_seq_view(remaining@);
                    let next = remaining.remove(0);
                    proof {
                        assert(next@ == rem0[0]);
                        assert(profile_seq_view(remaining@) =~= rem0.subrange(
                            1,
                            rem0.len() as int,
                        ));
                    }
                    let admitted = admit_profile(next, age);
                    let ghost cur = profile_seq_view(self.players@);
                    self.upsert_player(admitted);
                    proof {
                        assert(spec_apply_snapshot(cur, rem0, age) == spec_apply_snapshot(
                            spec_upsert(cur, spec_admit(rem0[0], age)),
                            rem0.subrange(1, rem0.len() as int),
                            age,
                        ));
                    }
                }
                proof {
                    assert(profile_seq_view(remaining@).len() == 0);
                    assert(spec_apply_snapshot(
                        profile_seq_view(self.players@),
                        profile_seq_view(remaining@),
                        age,
                    ) == profile_seq_view(self.players@));
                }
                request
            },
            None => {
                let mut i: usize = 0;
                let ghost before = profile_seq_view(self.players@);
                while i < self.players.len()
                    invariant
                        self.x_offset == x_now,
                        self.last_update == lu_now,
                        i <= self.players@.len(),
                        self.players@.len() == before.len(),
                        forall|p: int|
                            0 <= p < self.players@.len() ==> profile_motion_wf(
                                #[trigger] self.players@[p]@,
                            ),
                        forall|p: int|
                            0 <= p < i ==> #[trigger] self.players@[p]@ == spec_extrapolate(
                                before[p],
                                elapsed_micros,
                            ),
                        forall|p: int| i <= p < before.len() ==> #[trigger] self.players@[p]@
                            == before[p],
                        0 <= elapsed_micros <= MAX_ELAPSED,
                    decreases self.players@.len() - i,
                {
                    let mut p = self.players.remove(i);
                    extrapolate_profile(&mut p, elapsed_micros);
                    self.players.insert(i, p);
                    i = i + 1;
                }
                proof {
                    assert(profile_seq_view(self.players@) =~= spec_extrapolate_all(
                        before,
                        elapsed_micros,
                    ));
                }
                request
            },
        }
    }
}

/// Sanitizes a wire profile and walks it forward by the snapshot's age.
fn admit_profile(profile: UserProfile, age: i64) -> (r: UserProfile)
    requires
        0 <= age <= MAX_ELAPSED,
    ensures
        r@ == spec_admit(profile@, age),
        profile_motion_wf(r@),
{
    let mut p = profile;
    if p.horizontal_input < -1 {
        p.horizontal_input = -1;
    } else if p.horizontal_input > 1 {
        p.horizontal_input = 1;
    }
    if p.x_offset < -crate::motion::MAX_POSITION {
        p.x_offset = -crate::motion::MAX_POSITION;
    } else if p.x_offset > crate::motion::MAX_POSITION {
        p.x_offset = crate::motion::MAX_POSITION;
    }
    proof {
        assert(p@ == spec_sanitize(profile@));
    }
    extrapolate_profile(&mut p, age);
    p
}

/// Writing over the first entry that carries the profile's id is what
/// `spec_upsert` means when the id is present.
proof fn lemma_upsert_at(players: Seq<UserProfileView>, p: UserProfileView, j: int)
    requires
        0 <= j < players.len(),
        players[j].id == p.id,
        forall|q: int| 0 <= q < j ==> players[q].id != p.id,
    ensures
        spec_upsert(players, p) == players.update(j, p),
    decreases players.len(),
{
    if j == 0 {
        assert(seq![p] + players.subrange(1, players.len() as int) =~= players.update(0, p));
    } else {
        let sub = players.subrange(1, players.len() as int);
        assert(sub[j - 1].id == p.id);
        assert(forall|q: int| 0 <= q < j - 1 ==> sub[q].id != p.id);
        lemma_upsert_at(sub, p, j - 1);
        assert(seq![players[0]] + sub.update(j - 1, p) =~= players.update(j, p));
    }
}

/// Appending is what `spec_upsert` means when the id is absent.
proof fn lemma_upsert_append(players: Seq<UserProfileView>, p: UserProfileView)
    requires
        forall|q: int| 0 <= q < players.len() ==> players[q].id != p.id,
    ensures
        spec_upsert(players, p) == players.push(p),
    decreases players.len(),
{
    if players.len() == 0 {
        assert(seq![p] =~= players.push(p));
    } else {
        let sub = players.subrange(1, players.len() as int);
        lemma_upsert_append(sub, p);
        assert(seq![players[0]] + sub.push(p) =~= players.push(p));
    }
}

} // verus!
