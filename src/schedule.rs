use vstd::prelude::*;

verus! {

/// What the scheduler asks for next.
#[derive(Clone, Copy, Debug, PartialEq, Eq, Structural)]
pub enum SchedulerAction {
    /// Wait for the next tick of the interval timer, then ask again.
    WaitForTick,
    /// Run the cycle of the source at this index, whatever its outcome.
    RunCycle(usize),
    /// The bounded run is over.
    Stop,
}

/// Drives the sources in ticks: after each tick every source's cycle runs
/// once, in order, and a failing cycle never keeps the others from running.
/// `ticks_left` bounds the run (`None` runs forever).
#[derive(Clone, Copy, Debug, PartialEq, Eq, Structural)]
pub struct Scheduler {
    pub sources: usize,
    pub ticks_left: Option<u64>,
    /// The next source to run in the current tick; `sources` when the tick
    /// is done (or none has started).
    pub next: usize,
}

/// The action taken from scheduler state `s`, and the state after it.
pub open spec fn scheduler_step(s: Scheduler) -> (SchedulerAction, Scheduler) {
    if s.next < s.sources {
        (SchedulerAction::RunCycle(s.next), Scheduler { next: (s.next + 1) as usize, ..s })
    } else {
        match s.ticks_left {
            Some(k) => if k == 0 {
                (SchedulerAction::Stop, s)
            } else {
                (
                    SchedulerAction::WaitForTick,
                    Scheduler { ticks_left: Some((k - 1) as u64), next: 0, ..s },
                )
            },
            None => (SchedulerAction::WaitForTick, Scheduler { next: 0, ..s }),
        }
    }
}

/// The state after `n` actions.
pub open spec fn scheduler_after(s: Scheduler, n: nat) -> Scheduler
    decreases n,
{
    if n == 0 {
        s
    } else {
        scheduler_step(scheduler_after(s, (n - 1) as nat)).1
    }
}

/// Action number `n` (from 0).
pub open spec fn scheduler_action(s: Scheduler, n: nat) -> SchedulerAction {
    scheduler_step(scheduler_after(s, n)).0
}

impl Scheduler {
    /// A scheduler that has not started its first tick.
    pub open spec fn new_spec(sources: usize, ticks: Option<u64>) -> Scheduler {
        Scheduler { sources, ticks_left: ticks, next: sources }
    }

    pub fn new(sources: usize, ticks: Option<u64>) -> (r: Scheduler)
        ensures
            r == Scheduler::new_spec(sources, ticks),
    {
        Scheduler { sources, ticks_left: ticks, next: sources }
    }

    pub fn next_action(&mut self) -> (r: SchedulerAction)
        requires
            old(self).next <= old(self).sources,
        ensures
            (r, *final(self)) == scheduler_step(*old(self)),
            final(self).next <= final(self).sources,
    {
        if self.next < self.sources {
            let i = self.next;
            self.next = self.next + 1;
            SchedulerAction::RunCycle(i)
        } else {
            match self.ticks_left {
                Some(k) => if k == 0 {
                    SchedulerAction::Stop
                } else {
                    self.ticks_left = Some(k - 1);
                    self.next = 0;
                    SchedulerAction::WaitForTick
                },
                None => {
                    self.next = 0;
                    SchedulerAction::WaitForTick
                },
            }
        }
    }
}

proof fn lemma_scheduler_rounds(sources: usize, ticks: Option<u64>, t: nat, i: nat)
    requires
        i <= sources,
        match ticks {
            Some(k) => t < k,
            None => true,
        },
    ensures
        scheduler_after(Scheduler::new_spec(sources, ticks), t * (sources + 1) as nat + 1 + i)
            == (Scheduler {
            sources,
            ticks_left: match ticks {
                Some(k) => Some((k - t - 1) as u64),
                None => None,
            },
            next: i as usize,
        }),
    decreases t, i,
{
    let s0 = Scheduler::new_spec(sources, ticks);
    let n = t * (sources + 1) as nat + 1 + i;
    if i > 0 {
        lemma_scheduler_rounds(sources, ticks, t, (i - 1) as nat);
        assert(scheduler_after(s0, n) == scheduler_step(scheduler_after(s0, (n - 1) as nat)).1);
    } else if t > 0 {
        lemma_scheduler_rounds(sources, ticks, (t - 1) as nat, sources as nat);
        assert(t * (sources + 1) as nat == (t - 1) * (sources + 1) as nat + 1 + sources) by (
        nonlinear_arith)
            requires
                t > 0,
        ;
        assert(scheduler_after(s0, n) == scheduler_step(scheduler_after(s0, (n - 1) as nat)).1);
    } else {
        assert(t * (sources + 1) as nat == 0) by (nonlinear_arith)
            requires
                t == 0,
        ;
        assert(scheduler_after(s0, 0) == s0);
        assert(scheduler_after(s0, 1) == scheduler_step(scheduler_after(s0, 0)).1);
    }
}

/// A run of `k` ticks over `n` sources: each tick first waits for the timer
/// and then runs the cycles of sources `0` to `n - 1` in order, and after the
/// `k`-th tick the run stops.
pub proof fn lemma_bounded_run(sources: usize, k: u64)
    ensures
        forall|t: nat, i: nat|
            t < k && i < sources ==> scheduler_action(
                Scheduler::new_spec(sources, Some(k)),
                #[trigger] (t * (sources + 1) as nat + 1 + i),
            ) == SchedulerAction::RunCycle(i as usize),
        forall|t: nat|
            t < k ==> scheduler_action(
                Scheduler::new_spec(sources, Some(k)),
                #[trigger] (t * (sources + 1) as nat),
            ) == SchedulerAction::WaitForTick,
        scheduler_action(Scheduler::new_spec(sources, Some(k)), (k as nat) * ((sources + 1) as nat))
            == SchedulerAction::Stop,
{
    let s0 = Scheduler::new_spec(sources, Some(k));
    assert forall|t: nat, i: nat| t < k && i < sources implies scheduler_action(
        s0,
        #[trigger] (t * (sources + 1) as nat + 1 + i),
    ) == SchedulerAction::RunCycle(i as usize) by {
        lemma_scheduler_rounds(sources, Some(k), t, i);
    }
    assert forall|t: nat| t < k implies scheduler_action(
        s0,
        #[trigger] (t * (sources + 1) as nat),
    ) == SchedulerAction::WaitForTick by {
        if t > 0 {
            lemma_scheduler_rounds(sources, Some(k), (t - 1) as nat, sources as nat);
            assert(t * (sources + 1) as nat == (t - 1) * (sources + 1) as nat + 1 + sources) by (
            nonlinear_arith)
                requires
                    t > 0,
            ;
        } else {
            assert(t * (sources + 1) as nat == 0) by (nonlinear_arith)
                requires
                    t == 0,
            ;
            assert(scheduler_after(s0, 0) == s0);
        }
    }
    if k > 0 {
        lemma_scheduler_rounds(sources, Some(k), (k - 1) as nat, sources as nat);
        assert((k as nat) * ((sources + 1) as nat) == (k - 1) * (sources + 1) as nat + 1 + sources)
            by (nonlinear_arith)
            requires
                k > 0,
        ;
    } else {
        assert((k as nat) * ((sources + 1) as nat) == 0) by (nonlinear_arith)
            requires
                k == 0,
        ;
        assert(scheduler_after(s0, 0) == s0);
    }
}

} // verus!
