//! Round-trip clock statistics.
//!
//! The server keeps a window of recent round-trip and clock-delta samples
//! taken from `Pong` replies, and periodically sends their averages in a
//! `Ping`. The averages are plain integer means over the window; the
//! bounds lemmas at the bottom show the round-trip average stays within
//! the observed samples, so it is never negative and never runs away.

use vstd::arithmetic::div_mod::{lemma_div_by_multiple, lemma_div_is_ordered};
use vstd::arithmetic::mul::lemma_mul_inequality;
use vstd::prelude::*;

use crate::protocol::{ResponseView, ServerResponse};

verus! {

/// How many recent samples the rolling window keeps.
pub const CLOCK_WINDOW: usize = 16;

/// Upper bound on any timestamp the clock code accepts, in microseconds.
/// Keeps every sum and difference far away from overflow.
pub const MAX_TIMESTAMP: i64 = 0x2000_0000_0000_0000;

/// The sum of a window of round-trip samples.
pub open spec fn sum_roundtrips(s: Seq<u64>) -> int
    decreases s.len(),
{
    if s.len() == 0 {
        0
    } else {
        sum_roundtrips(s.drop_last()) + s.last()
    }
}

/// The sum of a window of clock-delta samples.
pub open spec fn sum_deltas(s: Seq<i64>) -> int
    decreases s.len(),
{
    if s.len() == 0 {
        0
    } else {
        sum_deltas(s.drop_last()) + s.last()
    }
}

/// Integer division truncated toward zero, the rounding the averages use.
pub open spec fn div_toward_zero(a: int, b: int) -> int {
    if a >= 0 {
        a / b
    } else {
        -((-a) / b)
    }
}

/// The mean of the round-trip window; zero while no sample has arrived.
pub open spec fn spec_average_roundtrip(s: Seq<u64>) -> int {
    if s.len() == 0 {
        0
    } else {
        sum_roundtrips(s) / (s.len() as int)
    }
}

/// The mean of the delta window, truncated toward zero; zero while no
/// sample has arrived.
pub open spec fn spec_average_delta(s: Seq<i64>) -> int {
    if s.len() == 0 {
        0
    } else {
        div_toward_zero(sum_deltas(s), s.len() as int)
    }
}

/// A window with its newest sample appended and, once the window is full,
/// its oldest sample dropped.
pub open spec fn slide_window<A>(s: Seq<A>, x: A, cap: int) -> Seq<A> {
    if s.len() < cap {
        s.push(x)
    } else {
        s.subrange(1, s.len() as int).push(x)
    }
}

/// Rolling clock statistics the server keeps per process.
pub struct ClockStats {
    /// Recent round-trip samples, in microseconds, oldest first.
    pub roundtrips: Vec<u64>,
    /// Recent server-minus-client clock deltas, in microseconds, oldest
    /// first.
    pub deltas: Vec<i64>,
}

impl ClockStats {
    /// Every sample within bounds and the windows within capacity.
    pub open spec fn wf(self) -> bool {
        &&& self.roundtrips@.len() <= CLOCK_WINDOW
        &&& self.deltas@.len() <= CLOCK_WINDOW
        &&& forall|i: int|
            0 <= i < self.roundtrips@.len() ==> #[trigger] self.roundtrips@[i]
                <= MAX_TIMESTAMP as u64
        &&& forall|i: int|
            0 <= i < self.deltas@.len() ==> -2 * (MAX_TIMESTAMP as int)
                <= #[trigger] self.deltas@[i] <= 2 * (MAX_TIMESTAMP as int)
    }

    /// Fresh statistics with no samples yet.
    pub fn new() -> (r: ClockStats)
        ensures
            r.wf(),
            r.roundtrips@ == Seq::<u64>::empty(),
            r.deltas@ == Seq::<i64>::empty(),
    {
        ClockStats { roundtrips: Vec::new(), deltas: Vec::new() }
    }

    /// Folds one `Pong` reply into the windows. `original_timestamp` is
    /// the server time echoed back, `client_timestamp` the client's clock
    /// when it replied, `now` the server time at receipt. The round-trip
    /// sample is the elapsed server time; the delta sample is the
    /// exchange's midpoint minus the client's clock — the estimated
    /// server-minus-client offset, positive when the server runs ahead.
    pub fn record_pong(&mut self, original_timestamp: i64, client_timestamp: i64, now: i64)
        requires
            old(self).wf(),
            0 <= original_timestamp <= now <= MAX_TIMESTAMP,
            -MAX_TIMESTAMP <= client_timestamp <= MAX_TIMESTAMP,
        ensures
            final(self).wf(),
            final(self).roundtrips@ == slide_window(
                old(self).roundtrips@,
                (now - original_timestamp) as u64,
                CLOCK_WINDOW as int,
            ),
            final(self).deltas@ == slide_window(
                old(self).deltas@,
                ((original_timestamp + (now - original_timestamp) / 2) - client_timestamp) as i64,
                CLOCK_WINDOW as int,
            ),
    {
        let roundtrip = now - original_timestamp;
        let midpoint = original_timestamp + roundtrip / 2;
        let delta = midpoint - client_timestamp;
        if self.roundtrips.len() >= CLOCK_WINDOW {
            self.roundtrips.remove(0);
            proof {
                assert(self.roundtrips@ == old(self).roundtrips@.subrange(
                    1,
                    old(self).roundtrips@.len() as int,
                ));
            }
        }
        self.roundtrips.push(roundtrip as u64);
        if self.deltas.len() >= CLOCK_WINDOW {
            self.deltas.remove(0);
            proof {
                assert(self.deltas@ == old(self).deltas@.subrange(
                    1,
                    old(self).deltas@.len() as int,
                ));
            }
        }
        self.deltas.push(delta);
    }

    /// The current round-trip average.
    pub fn average_roundtrip(&self) -> (r: u64)
        requires
            self.wf(),
        ensures
            r == spec_average_roundtrip(self.roundtrips@),
    {
        if self.roundtrips.len() == 0 {
            return 0;
        }
        let ghost v = self.roundtrips@;
        let mut acc: u128 = 0;
        let mut i: usize = 0;
        while i < self.roundtrips.len()
            invariant
                self.wf(),
                v == self.roundtrips@,
                i <= v.len(),
                acc == sum_roundtrips(v.take(i as int)),
                acc <= (i as int) * (MAX_TIMESTAMP as int),
            decreases v.len() - i,
        {
            proof {
                assert(v.take(i as int + 1).drop_last() == v.take(i as int));
                assert(v.take(i as int + 1).last() == v[i as int]);
                assert(v[i as int] <= MAX_TIMESTAMP as u64);
            }
            acc = acc + self.roundtrips[i] as u128;
            i = i + 1;
        }
        proof {
            assert(v.take(v.len() as int) == v);
            lemma_sum_roundtrips_bounds(v, 0, MAX_TIMESTAMP as u64);
            lemma_div_is_ordered(0, sum_roundtrips(v), v.len() as int);
            lemma_div_is_ordered(
                sum_roundtrips(v),
                (MAX_TIMESTAMP as int) * (v.len() as int),
                v.len() as int,
            );
            lemma_div_by_multiple(MAX_TIMESTAMP as int, v.len() as int);
        }
        (acc / (self.roundtrips.len() as u128)) as u64
    }

    /// The current clock-delta average.
    pub fn average_delta(&self) -> (r: i64)
        requires
            self.wf(),
        ensures
            r == spec_average_delta(self.deltas@),
    {
        if self.deltas.len() == 0 {
            return 0;
        }
        let ghost v = self.deltas@;
        let mut acc: i128 = 0;
        let mut i: usize = 0;
        while i < self.deltas.len()
            invariant
                self.wf(),
                v == self.deltas@,
                i <= v.len(),
                acc == sum_deltas(v.take(i as int)),
                -(i as int) * 2 * (MAX_TIMESTAMP as int) <= acc <= (i as int) * 2 * (
                MAX_TIMESTAMP as int),
            decreases v.len() - i,
        {
            proof {
                assert(v.take(i as int + 1).drop_last() == v.take(i as int));
                assert(v.take(i as int + 1).last() == v[i as int]);
                assert(-2 * (MAX_TIMESTAMP as int) <= v[i as int] <= 2 * (MAX_TIMESTAMP as int));
            }
            acc = acc + self.deltas[i] as i128;
            i = i + 1;
        }
        proof {
            assert(v.take(v.len() as int) == v);
        }
        let n = self.deltas.len() as u128;
        proof {
            lemma_sum_deltas_bounds(v, -2 * (MAX_TIMESTAMP as int), 2 * (MAX_TIMESTAMP as int));
        }
        if acc >= 0 {
            proof {
                lemma_div_is_ordered(0, sum_deltas(v), v.len() as int);
                lemma_div_is_ordered(
                    sum_deltas(v),
                    (2 * MAX_TIMESTAMP as int) * (v.len() as int),
                    v.len() as int,
                );
                lemma_div_by_multiple(2 * MAX_TIMESTAMP as int, v.len() as int);
            }
            ((acc as u128) / n) as i64
        } else {
            proof {
                lemma_div_is_ordered(0, -sum_deltas(v), v.len() as int);
                lemma_div_is_ordered(
                    -sum_deltas(v),
                    (2 * MAX_TIMESTAMP as int) * (v.len() as int),
                    v.len() as int,
                );
                lemma_div_by_multiple(2 * MAX_TIMESTAMP as int, v.len() as int);
            }
            let neg = ((-acc) as u128) / n;
            -(neg as i64)
        }
    }

    /// The `Ping` message carrying the current averages, stamped `now`.
    pub fn ping_message(&self, now: i64) -> (r: ServerResponse)
        requires
            self.wf(),
        ensures
            r@ == (ResponseView::Ping {
                timestamp: now,
                average_server_timestamp_delta: spec_average_delta(self.deltas@) as i64,
                average_roundtrip: spec_average_roundtrip(self.roundtrips@) as u64,
            }),
    {
        ServerResponse::Ping {
            timestamp: now,
            average_server_timestamp_delta: self.average_delta(),
            average_roundtrip: self.average_roundtrip(),
        }
    }
}

/// A nonnegative value shrinks or stays put under integer division by a
/// positive count.
proof fn lemma_div_nonincreasing_abs(a: int, n: int)
    requires
        a >= 0,
        n >= 1,
    ensures
        0 <= a / n <= a,
{
    lemma_div_is_ordered(0, a, n);
    vstd::arithmetic::div_mod::lemma_div_nonincreasing(a, n);
    vstd::arithmetic::div_mod::lemma_div_pos_is_pos(a, n);
}

/// Every sample between two bounds puts the window's sum between the
/// bounds scaled by the window's length.
pub proof fn lemma_sum_roundtrips_bounds(s: Seq<u64>, lo: u64, hi: u64)
    requires
        forall|i: int| 0 <= i < s.len() ==> lo <= #[trigger] s[i] <= hi,
    ensures
        (lo as int) * s.len() <= sum_roundtrips(s) <= (hi as int) * s.len(),
    decreases s.len(),
{
    if s.len() == 0 {
    } else {
        assert(forall|i: int|
            0 <= i < s.drop_last().len() ==> lo <= #[trigger] s.drop_last()[i] <= hi);
        lemma_sum_roundtrips_bounds(s.drop_last(), lo, hi);
        assert(lo <= s.last() <= hi);
        assert((lo as int) * s.len() == (lo as int) * (s.len() - 1) + lo) by (nonlinear_arith);
        assert((hi as int) * s.len() == (hi as int) * (s.len() - 1) + hi) by (nonlinear_arith);
    }
}

/// Every sample between two bounds puts the window's sum between the
/// bounds scaled by the window's length.
pub proof fn lemma_sum_deltas_bounds(s: Seq<i64>, lo: int, hi: int)
    requires
        forall|i: int| 0 <= i < s.len() ==> lo <= #[trigger] s[i] <= hi,
    ensures
        lo * s.len() <= sum_deltas(s) <= hi * s.len(),
    decreases s.len(),
{
    if s.len() == 0 {
    } else {
        assert(forall|i: int|
            0 <= i < s.drop_last().len() ==> lo <= #[trigger] s.drop_last()[i] <= hi);
        lemma_sum_deltas_bounds(s.drop_last(), lo, hi);
        assert(lo <= s.last() <= hi);
        assert(lo * s.len() == lo * (s.len() - 1) + lo) by (nonlinear_arith);
        assert(hi * s.len() == hi * (s.len() - 1) + hi) by (nonlinear_arith);
    }
}

/// The rolling round-trip average always lies between the smallest and
/// largest sample in the window: it is never negative, never exceeds any
/// observed latency bound, and once every sample equals one value the
/// average has converged to exactly that value.
pub proof fn lemma_rolling_average_bounded(s: Seq<u64>, lo: u64, hi: u64)
    requires
        s.len() > 0,
        forall|i: int| 0 <= i < s.len() ==> lo <= #[trigger] s[i] <= hi,
    ensures
        lo <= spec_average_roundtrip(s) <= hi,
{
    lemma_sum_roundtrips_bounds(s, lo, hi);
    lemma_div_is_ordered((lo as int) * s.len(), sum_roundtrips(s), s.len() as int);
    lemma_div_is_ordered(sum_roundtrips(s), (hi as int) * s.len(), s.len() as int);
    lemma_div_by_multiple(lo as int, s.len() as int);
    lemma_div_by_multiple(hi as int, s.len() as int);
}

/// The rolling average sits within one sample-count rounding step of the
/// window's true mean: scaled back up by the window's length it never
/// undershoots the sum by a full window.
pub proof fn lemma_rolling_average_near_mean(s: Seq<u64>)
    requires
        s.len() > 0,
    ensures
        spec_average_roundtrip(s) * s.len() <= sum_roundtrips(s) < (spec_average_roundtrip(s) + 1)
            * s.len(),
{
    let sum = sum_roundtrips(s);
    let n = s.len() as int;
    vstd::arithmetic::div_mod::lemma_fundamental_div_mod(sum, n);
    vstd::arithmetic::div_mod::lemma_mod_division_less_than_divisor(sum, n);
    assert(sum == n * (sum / n) + sum % n);
    assert((sum / n) * n == n * (sum / n)) by (nonlinear_arith);
    assert((sum / n + 1) * n == n * (sum / n) + n) by (nonlinear_arith);
}

/// Convergence on steady input: a window of identical samples averages to
/// exactly that sample.
pub proof fn lemma_rolling_average_converges(s: Seq<u64>, v: u64)
    requires
        s.len() > 0,
        forall|i: int| 0 <= i < s.len() ==> #[trigger] s[i] == v,
    ensures
        spec_average_roundtrip(s) == v,
{
    lemma_rolling_average_bounded(s, v, v);
}

} // verus!
