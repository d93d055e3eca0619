//! The phases of a run: warmup, measurement with live output, shutdown.

use vstd::prelude::*;
use crate::config::Config;
use crate::session::elapsed_ns;

verus! {

/// Nanoseconds between two live output lines.
pub const LIVE_INTERVAL_NS: u64 = 1_000_000_000;

/// Where a run stands. Times are nanoseconds of a monotonic clock.
#[derive(Clone, Copy, Debug, PartialEq, Eq, Structural)]
pub enum RunPhase {
    Starting,
    WarmingUp,
    Measuring { started: u64 },
    Finished,
}

/// What the caller does next.
#[derive(Clone, Copy, Debug, PartialEq, Eq, Structural)]
pub enum RunAction {
    /// Let the connections warm up for this many nanoseconds.
    WarmUp(u64),
    /// End the warmup of the statistics (`Stats::end_warmup`).
    EndWarmup,
    /// Wait this many nanoseconds, then print a live line if `print`.
    Tick { wait: u64, print: bool },
    /// Set the run shutting down, signal the connections and wait for them.
    Stop,
    /// Print the final results.
    Done,
}

/// The schedule of a run.
#[derive(Clone, Copy, Debug, PartialEq, Eq, Structural)]
pub struct Run {
    pub warmup: u64,
    pub duration: u64,
    pub quiet: bool,
    pub phase: RunPhase,
}

impl Run {
    /// The schedule of a run with this configuration, not started.
    pub fn new(config: &Config) -> (r: Run)
        ensures
            r == (Run {
                warmup: config.warmup_duration,
                duration: config.duration,
                quiet: config.quiet,
                phase: RunPhase::Starting,
            }),
    {
        Run {
            warmup: config.warmup_duration,
            duration: config.duration,
            quiet: config.quiet,
            phase: RunPhase::Starting,
        }
    }

    /// The next step at time `now`: warm up, then end the warmup and measure,
    /// with a live line every second (unless quiet) until the duration has
    /// passed since the warmup ended, then stop and report.
    pub open spec fn next(self, now: u64) -> (Run, RunAction) {
        match self.phase {
            RunPhase::Starting => (Run { phase: RunPhase::WarmingUp, ..self }, RunAction::WarmUp(self.warmup)),
            RunPhase::WarmingUp => (Run { phase: RunPhase::Measuring { started: now }, ..self }, RunAction::EndWarmup),
            RunPhase::Measuring { started } => if elapsed_ns(now, started) >= self.duration {
                (Run { phase: RunPhase::Finished, ..self }, RunAction::Stop)
            } else {
                (self, RunAction::Tick { wait: LIVE_INTERVAL_NS, print: !self.quiet })
            },
            RunPhase::Finished => (self, RunAction::Done),
        }
    }

    pub fn step(&mut self, now: u64) -> (a: RunAction)
        ensures
            (*final(self), a) == old(self).next(now),
    {
        match self.phase {
            RunPhase::Starting => {
                self.phase = RunPhase::WarmingUp;
                RunAction::WarmUp(self.warmup)
            },
            RunPhase::WarmingUp => {
                self.phase = RunPhase::Measuring { started: now };
                RunAction::EndWarmup
            },
            RunPhase::Measuring { started } => {
                let e = if now >= started { now - started } else { 0 };
                if e >= self.duration {
                    self.phase = RunPhase::Finished;
                    RunAction::Stop
                } else {
                    RunAction::Tick { wait: LIVE_INTERVAL_NS, print: !self.quiet }
                }
            },
            RunPhase::Finished => RunAction::Done,
        }
    }
}

/// The actions of a run over steps at the given times.
pub open spec fn run_actions(r: Run, times: Seq<u64>) -> Seq<RunAction>
    decreases times.len(),
{
    if times.len() == 0 {
        Seq::empty()
    } else {
        let (next, a) = r.next(times[0]);
        seq![a] + run_actions(next, times.drop_first())
    }
}

/// A run warms up first, then ends the warmup, and stops only once the duration
/// has passed since then: over any times, the first two actions are the warmup
/// and its end, measuring stops exactly when the duration has passed, and the
/// warmup is ended only once.
pub proof fn lemma_run_order(r: Run, times: Seq<u64>)
    requires
        r.phase == RunPhase::Starting,
        times.len() >= 2,
    ensures
        run_actions(r, times)[0] == RunAction::WarmUp(r.warmup),
        run_actions(r, times)[1] == RunAction::EndWarmup,
        forall|i: int| 2 <= i < times.len() ==> #[trigger] run_actions(r, times)[i] != RunAction::EndWarmup
            && run_actions(r, times)[i] != (RunAction::WarmUp(r.warmup)),
{
    let (r1, _) = r.next(times[0]);
    let (r2, _) = r1.next(times[1]);
    let t2 = times.drop_first().drop_first();
    assert(run_actions(r, times) == seq![RunAction::WarmUp(r.warmup)] + run_actions(r1, times.drop_first()));
    assert(run_actions(r1, times.drop_first()) == seq![RunAction::EndWarmup] + run_actions(r2, t2));
    lemma_measuring_run(r2, t2);
    assert forall|i: int| 2 <= i < times.len() implies #[trigger] run_actions(r, times)[i] != RunAction::EndWarmup
        && run_actions(r, times)[i] != (RunAction::WarmUp(r.warmup)) by {
        assert(run_actions(r, times)[i] == run_actions(r2, t2)[i - 2]);
    }
}

proof fn lemma_measuring_run(r: Run, times: Seq<u64>)
    requires
        r.phase is Measuring || r.phase is Finished,
    ensures
        run_actions(r, times).len() == times.len(),
        forall|i: int| 0 <= i < times.len() ==> !(#[trigger] run_actions(r, times)[i] is EndWarmup)
            && !(run_actions(r, times)[i] is WarmUp),
    decreases times.len(),
{
    if times.len() > 0 {
        let (next, a) = r.next(times[0]);
        lemma_measuring_run(next, times.drop_first());
        assert forall|i: int| 0 <= i < times.len() implies !(#[trigger] run_actions(r, times)[i] is EndWarmup)
            && !(run_actions(r, times)[i] is WarmUp) by {
            if i > 0 {
                assert(run_actions(r, times)[i] == run_actions(next, times.drop_first())[i - 1]);
            }
        }
    }
}

/// Measuring stops exactly when the run's duration has passed since the warmup
/// ended.
pub proof fn lemma_stops_when_duration_passed(r: Run, now: u64)
    requires
        r.phase is Measuring,
    ensures
        (r.next(now).1 == RunAction::Stop) <==> elapsed_ns(now, r.phase->started) >= r.duration,
{
}

} // verus!
