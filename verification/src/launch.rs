//! Opening the connections of a run at the configured connect rate.

use vstd::prelude::*;
use crate::config::Config;
use crate::session::pace_interval_ns;

verus! {

/// What the caller does next to open the run's connections.
#[derive(Clone, Copy, Debug, PartialEq, Eq, Structural)]
pub enum Launch {
    /// Open one more connection.
    Open,
    /// Wait this many nanoseconds before the next one.
    Wait(u64),
    /// All connections are open, or the run is shutting down.
    Done,
}

/// Opens `connections` connections, one every `interval_ns` nanoseconds.
#[derive(Clone, Copy, Debug, PartialEq, Eq, Structural)]
pub struct Launcher {
    pub connections: u64,
    pub interval_ns: u64,
    /// Connections opened so far.
    pub opened: u64,
    /// Whether the wait after the last opening is still due.
    pub waiting: bool,
}

/// The time between two connection openings at `rate` per second; no wait at a
/// rate of zero.
pub open spec fn connect_interval_ns(rate: u64) -> u64 {
    if rate == 0 { 0 } else { pace_interval_ns(rate) }
}

impl Launcher {
    /// The launcher of a run: all its connections still to open.
    pub fn new(config: &Config) -> (l: Launcher)
        ensures
            l == (Launcher {
                connections: config.connections,
                interval_ns: connect_interval_ns(config.connect_rate),
                opened: 0,
                waiting: false,
            }),
    {
        let interval_ns = if config.connect_rate == 0 {
            0
        } else {
            crate::session::pace_interval(config.connect_rate)
        };
        Launcher { connections: config.connections, interval_ns, opened: 0, waiting: false }
    }

    /// What comes after this state, when the run is (or is not) shutting down.
    pub open spec fn next(self, shutting_down: bool) -> (Launcher, Launch) {
        if shutting_down || self.opened >= self.connections {
            (Launcher { waiting: false, ..self }, Launch::Done)
        } else if self.waiting {
            (Launcher { waiting: false, ..self }, Launch::Wait(self.interval_ns))
        } else {
            (
                Launcher { opened: (self.opened + 1) as u64, waiting: self.interval_ns > 0, ..self },
                Launch::Open,
            )
        }
    }

    /// Decides the next step: stop when the run shuts down or every connection is
    /// open; after each opening, wait the connect interval (if any); else open
    /// the next connection.
    pub fn step(&mut self, shutting_down: bool) -> (a: Launch)
        ensures
            (*final(self), a) == old(self).next(shutting_down),
    {
        if shutting_down || self.opened >= self.connections {
            self.waiting = false;
            Launch::Done
        } else if self.waiting {
            self.waiting = false;
            Launch::Wait(self.interval_ns)
        } else {
            self.opened = self.opened + 1;
            self.waiting = self.interval_ns > 0;
            Launch::Open
        }
    }
}

/// The states a launcher goes through over `n` steps with the given shutdown
/// flags, and the actions it takes.
pub open spec fn launch_run(l: Launcher, flags: Seq<bool>) -> Seq<(Launcher, Launch)>
    decreases flags.len(),
{
    if flags.len() == 0 {
        Seq::empty()
    } else {
        let (next, a) = l.next(flags[0]);
        seq![(next, a)] + launch_run(next, flags.drop_first())
    }
}

proof fn lemma_launch_run_len(l: Launcher, flags: Seq<bool>)
    ensures
        launch_run(l, flags).len() == flags.len(),
    decreases flags.len(),
{
    if flags.len() > 0 {
        lemma_launch_run_len(l.next(flags[0]).0, flags.drop_first());
    }
}

/// A launcher never opens more connections than configured, opens one per
/// `Open`, and each opening is followed by a wait of the connect interval before
/// the next one (when the interval is not zero).
pub proof fn lemma_launch_keeps_the_rate(l: Launcher, flags: Seq<bool>)
    requires
        l.opened <= l.connections,
        l.waiting ==> l.interval_ns > 0,
    ensures
        forall|i: int| 0 <= i < flags.len() ==> {
            let (s, a) = #[trigger] launch_run(l, flags)[i];
            &&& s.opened <= s.connections
            &&& s.connections == l.connections && s.interval_ns == l.interval_ns
            &&& (a == Launch::Open && l.interval_ns > 0 && i + 1 < flags.len()
                ==> launch_run(l, flags)[i + 1].1 != Launch::Open)
        },
    decreases flags.len(),
{
    lemma_launch_run_len(l, flags);
    if flags.len() > 0 {
        let (next, a) = l.next(flags[0]);
        let run = launch_run(l, flags);
        let rest = launch_run(next, flags.drop_first());
        lemma_launch_run_len(next, flags.drop_first());
        lemma_launch_keeps_the_rate(next, flags.drop_first());
        assert(run == seq![(next, a)] + rest);
        assert forall|i: int| 0 <= i < flags.len() implies {
            let (s, a) = #[trigger] launch_run(l, flags)[i];
            &&& s.opened <= s.connections
            &&& s.connections == l.connections && s.interval_ns == l.interval_ns
            &&& (a == Launch::Open && l.interval_ns > 0 && i + 1 < flags.len()
                ==> launch_run(l, flags)[i + 1].1 != Launch::Open)
        } by {
            if i > 0 {
                assert(run[i] == rest[i - 1]);
                if i + 1 < flags.len() {
                    assert(run[i + 1] == rest[i]);
                }
            } else if i + 1 < flags.len() {
                assert(run[1] == rest[0]);
                if a == Launch::Open && l.interval_ns > 0 {
                    assert(next.waiting);
                }
            }
        }
    }
}

} // verus!
