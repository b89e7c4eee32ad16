//! Shared probe primitive: a Schmitt-trigger liveness state machine and a
//! bounded sliding-mean error rate, both driven by a stream of probe outcomes
//! (`true` = the probe failed). Several watcher modules embed one of each per
//! watched target.

use vstd::arithmetic::div_mod::lemma_div_is_ordered;
use vstd::arithmetic::div_mod::lemma_fundamental_div_mod;
use vstd::prelude::*;

verus! {

/// Counter value at which an `Alive` target is declared `Dead`.
pub const LIVENESS_HIGH: u8 = 6;

/// Counter value at which a `Dead` target is declared `Alive` again.
pub const LIVENESS_LOW: u8 = 3;

/// The failure counter saturates here.
pub const LIVENESS_MAX: u8 = 10;

/// One step of the saturating failure counter: a failure moves it up towards
/// `LIVENESS_MAX`, a success moves it down towards zero.
pub open spec fn counter_step(c: nat, failed: bool) -> nat {
    if failed {
        if c < LIVENESS_MAX { c + 1 } else { c }
    } else {
        if c > 0 { (c - 1) as nat } else { 0 }
    }
}

/// One step of the liveness state, given the counter value reached after the
/// probe: `Alive` turns `Dead` exactly when the counter reaches
/// `LIVENESS_HIGH`, `Dead` turns `Alive` exactly when it reaches
/// `LIVENESS_LOW`; nothing else moves it.
pub open spec fn alive_step(alive: bool, c_new: nat) -> bool {
    if alive && c_new == LIVENESS_HIGH {
        false
    } else if !alive && c_new == LIVENESS_LOW {
        true
    } else {
        alive
    }
}

/// Counter after feeding a whole sequence of probe outcomes from the initial
/// state (counter zero).
pub open spec fn counter_after(s: Seq<bool>) -> nat
    decreases s.len(),
{
    if s.len() == 0 {
        0
    } else {
        counter_step(counter_after(s.drop_last()), s.last())
    }
}

/// Liveness state after feeding a whole sequence of probe outcomes from the
/// initial state (`Alive`, counter zero).
pub open spec fn alive_after(s: Seq<bool>) -> bool
    decreases s.len(),
{
    if s.len() == 0 {
        true
    } else {
        alive_step(alive_after(s.drop_last()), counter_after(s))
    }
}

/// Scanning the outcome sequence forward, the counter reached `LIVENESS_HIGH`
/// more recently than it last reached `LIVENESS_LOW`.
pub open spec fn high_reached_more_recently(s: Seq<bool>) -> bool {
    exists|i: int|
        0 <= i < s.len() && counter_after(#[trigger] s.take(i + 1)) == LIVENESS_HIGH && (forall|
            j: int,
        |
            i < j < s.len() ==> counter_after(#[trigger] s.take(j + 1)) != LIVENESS_LOW)
}

/// Liveness state machine for one watched target.
pub struct LivenessMonitor {
    /// Current state: `true` is `Alive`.
    pub alive: bool,
    /// Saturating count of recent failures, within `[0, LIVENESS_MAX]`.
    pub failure_count: u8,
    /// The probe outcomes fed so far.
    pub history: Ghost<Seq<bool>>,
}

impl LivenessMonitor {
    /// The state is exactly what replaying the recorded history yields.
    pub open spec fn wf(self) -> bool {
        &&& self.failure_count as nat == counter_after(self.history@)
        &&& self.alive == alive_after(self.history@)
    }

    /// A fresh monitor starts `Alive` with a zero counter.
    pub fn new() -> (m: LivenessMonitor)
        ensures
            m.wf(),
            m.alive,
            m.failure_count == 0,
            m.history@ == Seq::<bool>::empty(),
    {
        LivenessMonitor { alive: true, failure_count: 0, history: Ghost(Seq::empty()) }
    }

    /// Feed one probe outcome; returns the liveness state before and after,
    /// so that a caller reports transitions and nothing else.
    pub fn update(&mut self, failed: bool) -> (transition: (bool, bool))
        requires
            old(self).wf(),
        ensures
            final(self).wf(),
            final(self).history@ == old(self).history@.push(failed),
            final(self).failure_count as nat == counter_step(
                old(self).failure_count as nat,
                failed,
            ),
            final(self).alive == alive_step(old(self).alive, final(self).failure_count as nat),
            transition == (old(self).alive, final(self).alive),
    {
        proof {
            lemma_counter_bounds(self.history@);
        }
        if failed {
            if self.failure_count < LIVENESS_MAX {
                self.failure_count = self.failure_count + 1;
            }
        } else {
            if self.failure_count > 0 {
                self.failure_count = self.failure_count - 1;
            }
        }
        let alive_old = self.alive;
        if self.alive && self.failure_count == LIVENESS_HIGH {
            self.alive = false;
        } else if !self.alive && self.failure_count == LIVENESS_LOW {
            self.alive = true;
        }
        proof {
            self.history@ = self.history@.push(failed);
            assert(self.history@.drop_last() =~= old(self).history@);
        }
        (alive_old, self.alive)
    }
}

/// The counter never leaves `[0, LIVENESS_MAX]`; moreover an `Alive` state
/// keeps it strictly below `LIVENESS_HIGH` and a `Dead` state strictly above
/// `LIVENESS_LOW`.
pub proof fn lemma_counter_bounds(s: Seq<bool>)
    ensures
        counter_after(s) <= LIVENESS_MAX,
        alive_after(s) ==> counter_after(s) < LIVENESS_HIGH,
        !alive_after(s) ==> counter_after(s) > LIVENESS_LOW,
    decreases s.len(),
{
    if s.len() > 0 {
        lemma_counter_bounds(s.drop_last());
    }
}

/// Number of samples over which the error rate is averaged; the rate is
/// reportable only once this many samples were fed.
pub const RATE_WINDOW: u32 = 100;

/// Fixed-point scale of the error rate: `RATE_SCALE` stands for a rate of
/// `1.0` (every probe failed) and `0` for a rate of `0.0`.
pub const RATE_SCALE: u64 = 1000000;

/// The accumulator never exceeds this (a full window of failures).
pub const RATE_ACC_MAX: u64 = 100000000;

/// One step of the sliding-mean accumulator: add the new sample (scaled) and
/// subtract the previously computed rate, which approximates dropping the
/// oldest sample of the window.
pub open spec fn acc_step(acc: nat, failed: bool) -> nat {
    ((acc + if failed {
        RATE_SCALE as nat
    } else {
        0 as nat
    }) - acc / (RATE_WINDOW as nat)) as nat
}

/// The accumulator after feeding `k` identical samples.
pub open spec fn acc_after_run(acc: nat, failed: bool, k: nat) -> nat
    decreases k,
{
    if k == 0 {
        acc
    } else {
        acc_step(acc_after_run(acc, failed, (k - 1) as nat), failed)
    }
}

/// Bounded sliding-mean error rate for one watched target, in fixed point:
/// `rate` is in `[0, RATE_SCALE]` and counts failed probes per `RATE_SCALE`.
pub struct ErrorRateMonitor {
    /// Scaled accumulator, within `[0, RATE_ACC_MAX]`.
    pub acc: u64,
    /// Number of samples fed so far, saturating.
    pub count: u32,
    /// Current rate: `acc / RATE_WINDOW`.
    pub rate: u64,
}

impl ErrorRateMonitor {
    /// The rate is the windowed mean of the accumulator, which stays bounded
    /// by a full window of failures.
    pub open spec fn wf(self) -> bool {
        &&& self.rate as nat == self.acc as nat / (RATE_WINDOW as nat)
        &&& self.acc <= RATE_ACC_MAX
    }

    /// A fresh monitor has seen nothing and reports a zero rate.
    pub fn new() -> (m: ErrorRateMonitor)
        ensures
            m.wf(),
            m.acc == 0,
            m.count == 0,
            m.rate == 0,
    {
        ErrorRateMonitor { acc: 0, count: 0, rate: 0 }
    }

    /// Feed one probe outcome. Returns the new rate once at least
    /// `RATE_WINDOW` samples were fed, and nothing before that.
    pub fn update(&mut self, failed: bool) -> (r: Option<u64>)
        requires
            old(self).wf(),
        ensures
            final(self).wf(),
            final(self).acc as nat == acc_step(old(self).acc as nat, failed),
            final(self).rate as nat == final(self).acc as nat / (RATE_WINDOW as nat),
            final(self).count == if old(self).count < u32::MAX {
                (old(self).count + 1) as u32
            } else {
                u32::MAX
            },
            r == if final(self).count >= RATE_WINDOW {
                Some(final(self).rate)
            } else {
                None::<u64>
            },
            final(self).rate <= RATE_SCALE,
    {
        proof {
            lemma_acc_step_bound(self.acc as nat, failed);
            lemma_div_is_ordered(0, self.acc as int, RATE_WINDOW as int);
            lemma_div_is_ordered(self.acc as int, RATE_ACC_MAX as int, RATE_WINDOW as int);
        }
        self.acc = self.acc + if failed {
            RATE_SCALE
        } else {
            0
        } - self.rate;
        self.rate = self.acc / (RATE_WINDOW as u64);
        self.count = self.count.saturating_add(1);
        if self.count >= RATE_WINDOW {
            Some(self.rate)
        } else {
            None
        }
    }
}

/// One update keeps the accumulator within a full window of failures.
pub proof fn lemma_acc_step_bound(acc: nat, failed: bool)
    requires
        acc <= RATE_ACC_MAX,
    ensures
        acc_step(acc, failed) <= RATE_ACC_MAX,
        acc_step(acc, failed) >= acc - acc / (RATE_WINDOW as nat),
{
    lemma_fundamental_div_mod(acc as int, RATE_WINDOW as int);
    lemma_div_is_ordered(acc as int, RATE_ACC_MAX as int, RATE_WINDOW as int);
    assert(RATE_ACC_MAX as nat / (RATE_WINDOW as nat) == RATE_SCALE);
}

/// Feeding only failures never lowers the rate, and closes the gap to a full
/// `RATE_SCALE` rate by at least one accumulator unit per probe: after
/// `RATE_ACC_MAX - acc` consecutive failures the rate is exactly `RATE_SCALE`,
/// the fixed point of the update rule, and stays there.
pub proof fn lemma_failures_converge_to_full_rate(acc: nat, k: nat)
    requires
        acc <= RATE_ACC_MAX,
    ensures
        acc_after_run(acc, true, k) <= RATE_ACC_MAX,
        acc_after_run(acc, true, k) >= acc,
        RATE_ACC_MAX - acc_after_run(acc, true, k) <= if RATE_ACC_MAX >= acc + k {
            RATE_ACC_MAX - acc - k
        } else {
            0
        },
        k + acc >= RATE_ACC_MAX ==> acc_after_run(acc, true, k) / (RATE_WINDOW as nat)
            == RATE_SCALE,
    decreases k,
{
    if k == 0 {
        assert(RATE_ACC_MAX as nat / (RATE_WINDOW as nat) == RATE_SCALE);
    } else {
        lemma_failures_converge_to_full_rate(acc, (k - 1) as nat);
        let a = acc_after_run(acc, true, (k - 1) as nat);
        lemma_acc_step_bound(a, true);
        lemma_fundamental_div_mod(a as int, RATE_WINDOW as int);
        lemma_div_is_ordered(a as int, RATE_ACC_MAX as int, RATE_WINDOW as int);
        if a < RATE_ACC_MAX {
            lemma_div_is_ordered(a as int, RATE_ACC_MAX as int - 1, RATE_WINDOW as int);
            assert((RATE_ACC_MAX - 1) as nat / (RATE_WINDOW as nat) < RATE_SCALE);
        }
        assert(RATE_ACC_MAX as nat / (RATE_WINDOW as nat) == RATE_SCALE);
    }
}

/// Feeding only successes never raises the rate, and drains the accumulator by
/// at least one unit per probe while the rate is nonzero: after `acc`
/// consecutive successes the rate is exactly zero.
pub proof fn lemma_successes_converge_to_zero_rate(acc: nat, k: nat)
    ensures
        acc_after_run(acc, false, k) <= acc,
        acc_after_run(acc, false, k) < RATE_WINDOW || acc_after_run(acc, false, k) + k <= acc,
        k >= acc ==> acc_after_run(acc, false, k) / (RATE_WINDOW as nat) == 0,
    decreases k,
{
    if k > 0 {
        lemma_successes_converge_to_zero_rate(acc, (k - 1) as nat);
        let a = acc_after_run(acc, false, (k - 1) as nat);
        lemma_fundamental_div_mod(a as int, RATE_WINDOW as int);
    }
}

/// For any sequence of probe outcomes, the liveness state is `Dead` exactly
/// when, scanning the sequence forward, the counter reached `LIVENESS_HIGH`
/// more recently than it last reached `LIVENESS_LOW`; and the counter always
/// stays within `[0, LIVENESS_MAX]`.
pub proof fn lemma_liveness_schmitt(s: Seq<bool>)
    ensures
        alive_after(s) == !high_reached_more_recently(s),
        counter_after(s) <= LIVENESS_MAX,
    decreases s.len(),
{
    lemma_counter_bounds(s);
    if s.len() == 0 {
        assert(!high_reached_more_recently(s));
    } else {
        let s0 = s.drop_last();
        lemma_liveness_schmitt(s0);
        lemma_counter_bounds(s0);
        assert(s.take(s.len() as int) == s);
        assert forall|k: int| 0 <= k <= s0.len() implies #[trigger] s.take(k) == s0.take(k) by {
            assert(s.take(k) =~= s0.take(k));
        }
        let c_new = counter_after(s);
        if alive_after(s0) {
            if c_new == LIVENESS_HIGH {
                // the last step itself is the witness
                assert(counter_after(s.take(s.len() - 1 + 1)) == LIVENESS_HIGH);
                assert(high_reached_more_recently(s));
                assert(!alive_after(s));
            } else {
                assert(alive_after(s));
                if high_reached_more_recently(s) {
                    let i = choose|i: int|
                        0 <= i < s.len() && counter_after(#[trigger] s.take(i + 1))
                            == LIVENESS_HIGH && (forall|j: int|
                            i < j < s.len() ==> counter_after(#[trigger] s.take(j + 1))
                                != LIVENESS_LOW);
                    assert(i < s0.len()) by {
                        assert(counter_after(s.take(s.len() as int)) != LIVENESS_HIGH);
                    }
                    assert(counter_after(s0.take(i + 1)) == LIVENESS_HIGH);
                    assert forall|j: int| i < j < s0.len() implies counter_after(
                        #[trigger] s0.take(j + 1),
                    ) != LIVENESS_LOW by {
                        assert(s0.take(j + 1) == s.take(j + 1));
                        assert(counter_after(s.take(j + 1)) != LIVENESS_LOW);
                    }
                    assert(high_reached_more_recently(s0));
                    assert(false);
                }
            }
        } else {
            let i0 = choose|i: int|
                0 <= i < s0.len() && counter_after(#[trigger] s0.take(i + 1)) == LIVENESS_HIGH && (
                forall|j: int|
                    i < j < s0.len() ==> counter_after(#[trigger] s0.take(j + 1)) != LIVENESS_LOW);
            if c_new == LIVENESS_LOW {
                assert(alive_after(s));
                if high_reached_more_recently(s) {
                    let i = choose|i: int|
                        0 <= i < s.len() && counter_after(#[trigger] s.take(i + 1))
                            == LIVENESS_HIGH && (forall|j: int|
                            i < j < s.len() ==> counter_after(#[trigger] s.take(j + 1))
                                != LIVENESS_LOW);
                    assert(counter_after(s.take(s.len() as int)) == LIVENESS_LOW);
                    assert(i < s.len() - 1) by {
                        assert(counter_after(s.take(s.len() as int)) != LIVENESS_HIGH);
                    }
                    assert(counter_after(s.take(s.len() - 1 + 1)) != LIVENESS_LOW);
                    assert(false);
                }
            } else {
                assert(!alive_after(s));
                // the old witness still stands: the new step is neither LOW
                assert(counter_after(s.take(i0 + 1)) == LIVENESS_HIGH);
                assert forall|j: int| i0 < j < s.len() implies counter_after(
                    #[trigger] s.take(j + 1),
                ) != LIVENESS_LOW by {
                    if j < s.len() - 1 {
                        assert(counter_after(s0.take(j + 1)) != LIVENESS_LOW);
                    } else {
                        assert(s.take(j + 1) == s);
                    }
                }
                assert(high_reached_more_recently(s));
            }
        }
    }
}

} // verus!
