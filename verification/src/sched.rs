//! The scheduler's exclusive-access discipline, as a state machine: one
//! worker per (module, variation) pair, each iteration bracketed by acquiring
//! and releasing the module's exclusive handle. A worker acquires only a
//! module nobody holds, so two variations of one module — two workers bound
//! to the same module — never run it at the same time.

use vstd::prelude::*;

verus! {

/// One step a worker takes against the lock table.
pub enum SchedEvent {
    /// The worker tries to begin an iteration on its module; it proceeds only
    /// if nobody holds the module.
    Acquire { worker: usize, module: usize },
    /// The worker ends its iteration and lets go of whatever it held.
    Release { worker: usize },
}

/// What each worker currently runs: nothing, or one module.
pub open spec fn sched_init(n_workers: nat) -> Seq<Option<usize>> {
    Seq::new(n_workers, |i: int| None)
}

/// No worker holds module `m`.
pub open spec fn module_free(s: Seq<Option<usize>>, m: usize) -> bool {
    forall|w: int| 0 <= w < s.len() ==> (#[trigger] s[w]) != Some(m)
}

/// One transition: an acquire succeeds only for an idle worker and a free
/// module, a release always lets go; anything else changes nothing.
pub open spec fn sched_step(s: Seq<Option<usize>>, e: SchedEvent) -> Seq<Option<usize>> {
    match e {
        SchedEvent::Acquire { worker, module } => {
            if worker < s.len() && s[worker as int] is None && module_free(s, module) {
                s.update(worker as int, Some(module))
            } else {
                s
            }
        },
        SchedEvent::Release { worker } => {
            if worker < s.len() {
                s.update(worker as int, None)
            } else {
                s
            }
        },
    }
}

/// The state after a whole trace of events, from the idle start.
pub open spec fn sched_run(n_workers: nat, events: Seq<SchedEvent>) -> Seq<Option<usize>>
    decreases events.len(),
{
    if events.len() == 0 {
        sched_init(n_workers)
    } else {
        sched_step(sched_run(n_workers, events.drop_last()), events.last())
    }
}

/// No two workers run the same module at the same time.
pub open spec fn mutual_exclusion(s: Seq<Option<usize>>) -> bool {
    forall|w1: int, w2: int|
        0 <= w1 < w2 < s.len() && s[w1] is Some && s[w2] is Some ==> (#[trigger] s[w1]) != (
        #[trigger] s[w2])
}

/// The lock table itself, for a host that drives workers step by step: per
/// worker, the module it currently runs. Its transitions are exactly those of
/// `sched_step`, so the mutual-exclusion law below holds of every run.
pub struct ModuleLocks {
    pub running: Vec<Option<usize>>,
}

impl ModuleLocks {
    /// All workers idle.
    pub fn new(n_workers: usize) -> (t: ModuleLocks)
        ensures
            t.running@ == sched_init(n_workers as nat),
    {
        let mut running: Vec<Option<usize>> = Vec::new();
        let mut i: usize = 0;
        while i < n_workers
            invariant
                i <= n_workers,
                running@.len() == i,
                forall|w: int| 0 <= w < i ==> running@[w] is None,
            decreases n_workers - i,
        {
            running.push(None);
            i = i + 1;
        }
        proof {
            assert(running@ =~= sched_init(n_workers as nat));
        }
        ModuleLocks { running }
    }

    /// No worker holds module `m`.
    fn module_free_exec(&self, m: usize) -> (r: bool)
        ensures
            r == module_free(self.running@, m),
    {
        let n = self.running.len();
        let mut w: usize = 0;
        while w < n
            invariant
                n == self.running@.len(),
                w <= n,
                forall|j: int| 0 <= j < w ==> (#[trigger] self.running@[j]) != Some(m),
            decreases n - w,
        {
            match self.running[w] {
                Some(held) => {
                    if held == m {
                        return false;
                    }
                },
                None => {},
            }
            w = w + 1;
        }
        true
    }

    /// A worker tries to begin an iteration on its module; it proceeds only
    /// when it is idle and nobody holds the module.
    pub fn try_acquire(&mut self, worker: usize, module: usize) -> (ok: bool)
        ensures
            final(self).running@ == sched_step(
                old(self).running@,
                SchedEvent::Acquire { worker, module },
            ),
            ok == (worker < old(self).running@.len() && old(self).running@[worker as int] is None
                && module_free(old(self).running@, module)),
    {
        if worker >= self.running.len() {
            return false;
        }
        let idle = match self.running[worker] {
            None => true,
            Some(_) => false,
        };
        if !idle {
            return false;
        }
        if !self.module_free_exec(module) {
            return false;
        }
        self.running[worker] = Some(module);
        true
    }

    /// The worker ends its iteration and lets go of whatever it held.
    pub fn release(&mut self, worker: usize)
        ensures
            final(self).running@ == sched_step(
                old(self).running@,
                SchedEvent::Release { worker },
            ),
    {
        if worker < self.running.len() {
            self.running[worker] = None;
        }
    }

    /// The violation detector: do two workers run the same module right now?
    pub fn violation_free(&self) -> (r: bool)
        ensures
            r == mutual_exclusion(self.running@),
    {
        let n = self.running.len();
        let mut w1: usize = 0;
        while w1 < n
            invariant
                n == self.running@.len(),
                w1 <= n,
                forall|a: int, b: int|
                    0 <= a < b < n && a < w1 && self.running@[a] is Some && self.running@[b]
                        is Some ==> (#[trigger] self.running@[a]) != (#[trigger] self.running@[b]),
            decreases n - w1,
        {
            match self.running[w1] {
                None => {},
                Some(held) => {
                    let mut w2: usize = w1 + 1;
                    while w2 < n
                        invariant
                            n == self.running@.len(),
                            w1 < w2 <= n,
                            self.running@[w1 as int] == Some(held),
                            forall|b: int|
                                w1 < b < w2 && self.running@[b] is Some ==> (
                                #[trigger] self.running@[b]) != Some(held),
                        decreases n - w2,
                    {
                        match self.running[w2] {
                            Some(other) => {
                                if other == held {
                                    return false;
                                }
                            },
                            None => {},
                        }
                        w2 = w2 + 1;
                    }
                },
            }
            w1 = w1 + 1;
        }
        true
    }
}

/// Two variations of the same module never execute concurrently: whatever
/// trace of acquire and release steps the workers take, every reachable state
/// of the lock table keeps each module with at most one running worker.
/// Variations of different modules are unconstrained and run concurrently.
pub proof fn lemma_no_concurrent_variations(n_workers: nat, events: Seq<SchedEvent>)
    ensures
        mutual_exclusion(sched_run(n_workers, events)),
    decreases events.len(),
{
    if events.len() == 0 {
        assert(mutual_exclusion(sched_init(n_workers)));
    } else {
        let s0 = sched_run(n_workers, events.drop_last());
        lemma_no_concurrent_variations(n_workers, events.drop_last());
        let s = sched_step(s0, events.last());
        match events.last() {
            SchedEvent::Acquire { worker, module } => {
                if worker < s0.len() && s0[worker as int] is None && module_free(s0, module) {
                    assert forall|w1: int, w2: int|
                        0 <= w1 < w2 < s.len() && s[w1] is Some && s[w2] is Some implies s[w1]
                        != s[w2] by {
                        if w1 != worker as int && w2 != worker as int {
                            assert(s[w1] == s0[w1]);
                            assert(s[w2] == s0[w2]);
                        } else if w1 == worker as int {
                            assert(s[w2] == s0[w2]);
                            assert(s0[w2] != Some(module));
                        } else {
                            assert(s[w1] == s0[w1]);
                            assert(s0[w1] != Some(module));
                        }
                    }
                }
            },
            SchedEvent::Release { worker } => {},
        }
    }
}

} // verus!
