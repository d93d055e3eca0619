//! What one connection of the load test does, as a state machine: the caller
//! performs each action (connect, send, receive, wait) and hands back what
//! happened; the session decides what comes next and what the statistics count.

use vstd::prelude::*;
use crate::config::Config;
use crate::send_log::SendLog;
use crate::histogram::Refusal;
use crate::stats::{Stats, StatsView, LATENCY_SAMPLE_EVERY};

verus! {

/// Nanoseconds in a second.
pub const NANOS_PER_SEC: u64 = 1_000_000_000;

/// Nanoseconds in a microsecond.
pub const NANOS_PER_MICRO: u64 = 1_000;

/// The wire protocol of a connection.
#[derive(Clone, Copy, Debug, PartialEq, Eq, Structural)]
pub enum Transport {
    Tcp,
    WebSocket,
}

/// What a receive brought.
#[derive(Clone, Copy, Debug, PartialEq, Eq, Structural)]
pub enum Reply {
    /// A reply of this many bytes: a completed read of the expected length on TCP,
    /// a binary message on WebSocket.
    Data(usize),
    /// A WebSocket message that is not binary.
    Other,
    /// The stream ended.
    Closed,
    /// The transport reported an error.
    Failed,
}

/// What happened to the action last asked for.
#[derive(Clone, Copy, Debug, PartialEq, Eq, Structural)]
pub enum Event {
    Connected,
    ConnectFailed,
    ConnectTimedOut,
    NodelaySet,
    NodelayFailed,
    ReaderStarted,
    Sent,
    SendFailed,
    Received(Reply),
    Yielded,
    Slept,
    ShutdownSignalled,
    /// The connection has lived its lifetime.
    LifetimeOver,
    Closed,
}

/// A failure to report to the user.
#[derive(Clone, Copy, Debug, PartialEq, Eq, Structural)]
pub enum Failure {
    ConnectFailed,
    ConnectTimedOut,
    FirstSendFailed,
    FirstReceiveFailed,
    FirstReplyUnexpected,
    SendFailed,
    ReceiveFailed,
    /// The histogram refused a latency.
    LatencyNotRecorded(Refusal),
}

/// A configuration that the main loop cannot run with.
#[derive(Clone, Copy, Debug, PartialEq, Eq, Structural)]
pub enum Abort {
    /// There is no message to repeat.
    NoMessage,
    /// Messages are to be paced at zero per second.
    ZeroRate,
}

/// How a session ended: after its main loop, stopped early on a failure that is
/// counted, failed with an error handed to the caller, or cannot go on with its
/// configuration (nothing is counted; the caller stops the task).
#[derive(Clone, Copy, Debug, PartialEq, Eq, Structural)]
pub enum Outcome {
    Completed,
    Stopped,
    Failed,
    Aborted(Abort),
}

/// What the caller does next.
#[derive(Clone, Copy, Debug, PartialEq, Eq, Structural)]
pub enum Action {
    /// Open the connection, within the connect timeout.
    Connect,
    /// Turn the Nagle algorithm back on (TCP).
    SetNodelay,
    SendFirst,
    ReceiveFirst,
    /// Start the task that reads the replies of a pipelined connection.
    StartReader,
    Send,
    Receive,
    /// Let other tasks run.
    Yield,
    /// Wait this many nanoseconds.
    Sleep(u64),
    /// The run is shutting down: do nothing this round, let other tasks run.
    Idle,
    /// Close the connection (and wait for the reader of a pipelined one).
    Close,
    Finish(Outcome),
}

/// Where a session stands. Times are nanoseconds of a monotonic clock.
#[derive(Clone, Copy, Debug, PartialEq, Eq, Structural)]
pub enum Phase {
    Created,
    Connecting,
    SettingNodelay,
    SendingFirst { start: u64 },
    ReceivingFirst { start: u64 },
    StartingReader,
    Idling,
    Sending { send_time: u64 },
    Receiving { send_time: u64 },
    Yielding { send_time: u64 },
    Sleeping,
    Closing,
    Finished(Outcome),
}

/// What a step does to the statistics.
#[derive(Clone, Copy, Debug, PartialEq, Eq, Structural)]
pub enum Effect {
    Nothing,
    ConnectionError,
    Completed,
    /// A request answered: its latency offered to the histogram as sample number
    /// `sample_count`, and the request counted with its bytes.
    Exchange { latency_us: u64, sample_count: usize, sent: usize, received: usize },
}

/// One connection.
#[derive(Clone, Copy, Debug, PartialEq, Eq, Structural)]
pub struct Session {
    pub transport: Transport,
    pub pipeline: bool,
    pub phase: Phase,
    /// Messages written in the main loop.
    pub counter: usize,
    /// When the main loop began.
    pub start_time: u64,
}

/// Everything one step decides.
#[derive(Clone, Copy, Debug, PartialEq, Eq, Structural)]
pub struct Plan {
    pub session: Session,
    pub action: Action,
    pub report: Option<Failure>,
    pub effect: Effect,
    /// A send time to note in the log of a pipelined connection.
    pub logged: Option<u64>,
}

/// What a step hands back to the caller.
#[derive(Clone, Copy, Debug, PartialEq, Eq, Structural)]
pub struct Step {
    pub action: Action,
    pub report: Option<Failure>,
    /// When the connection's lifetime ends, if it has one and the main loop runs:
    /// the action is to be cut short then, with `Event::LifetimeOver`.
    pub deadline: Option<u64>,
}

/// Nanoseconds from `since` to `now`, zero if `now` is earlier.
pub open spec fn elapsed_ns(now: u64, since: u64) -> u64 {
    if now >= since { (now - since) as u64 } else { 0 }
}

fn elapsed(now: u64, since: u64) -> (r: u64)
    ensures
        r == elapsed_ns(now, since),
{
    if now >= since { now - since } else { 0 }
}

/// Length of the repeated message (zero when there is none).
pub open spec fn message_len(config: Config) -> usize {
    match config.message {
        Some(m) => m.len(),
        None => 0,
    }
}

/// Length of the first message (zero when there is none).
pub open spec fn first_message_len(config: Config) -> usize {
    match config.first_message {
        Some(m) => m.len(),
        None => 0,
    }
}

/// A failure is reported unless the run is shutting down or quiet.
pub open spec fn report_if(config: Config, shutting_down: bool, f: Failure) -> Option<Failure> {
    if !shutting_down && !config.quiet { Some(f) } else { None }
}

fn report_exec(config: &Config, shutting_down: bool, f: Failure) -> (r: Option<Failure>)
    ensures
        r == report_if(*config, shutting_down, f),
{
    if !shutting_down && !config.quiet { Some(f) } else { None }
}

/// The waiting time between two messages of a connection, in nanoseconds, at
/// `rate` messages per second: a billion divided by `rate`, rounded to the
/// nearest (halves up).
pub open spec fn pace_interval_ns(rate: u64) -> u64
    recommends
        rate > 0,
{
    (NANOS_PER_SEC / rate + if 2 * (NANOS_PER_SEC % rate) >= rate { 1int } else { 0int }) as u64
}

pub(crate) fn pace_interval(rate: u64) -> (r: u64)
    requires
        rate > 0,
    ensures
        r == pace_interval_ns(rate),
{
    let q = NANOS_PER_SEC / rate;
    let rem = NANOS_PER_SEC % rate;
    if rem >= rate - rem { q + 1 } else { q }
}

impl Plan {
    pub open spec fn with(self, report: Option<Failure>, effect: Effect) -> Plan {
        Plan { report, effect, ..self }
    }
}

impl Session {
    pub open spec fn at(self, phase: Phase) -> Session {
        Session { phase, ..self }
    }

    pub open spec fn quiet_plan(self, phase: Phase, action: Action) -> Plan {
        Plan { session: self.at(phase), action, report: None, effect: Effect::Nothing, logged: None }
    }

    /// The action a session waits in, asked again when an event does not fit.
    pub open spec fn pending(self) -> Action {
        match self.phase {
            Phase::Created | Phase::Connecting => Action::Connect,
            Phase::SettingNodelay => Action::SetNodelay,
            Phase::SendingFirst { .. } => Action::SendFirst,
            Phase::ReceivingFirst { .. } => Action::ReceiveFirst,
            Phase::StartingReader => Action::StartReader,
            Phase::Idling => Action::Idle,
            Phase::Sending { .. } => Action::Send,
            Phase::Receiving { .. } => Action::Receive,
            Phase::Yielding { .. } => Action::Yield,
            Phase::Sleeping => Action::Sleep(0),
            Phase::Closing => Action::Close,
            Phase::Finished(o) => Action::Finish(o),
        }
    }

    /// A failure that ends the session early and is counted as a connection error.
    pub open spec fn stop(self, config: Config, shutting_down: bool, f: Failure) -> Plan {
        Plan {
            session: self.at(Phase::Finished(Outcome::Stopped)),
            action: Action::Finish(Outcome::Stopped),
            report: report_if(config, shutting_down, f),
            effect: Effect::ConnectionError,
            logged: None,
        }
    }

    /// The top of the main loop: leave it once the connection has lived its
    /// lifetime; idle while the run shuts down; else send the next message,
    /// noting its send time when pipelined.
    pub open spec fn loop_top(self, config: Config, shutting_down: bool, now: u64) -> Plan {
        if config.channel_lifetime matches Some(l) && elapsed_ns(now, self.start_time) >= l {
            self.quiet_plan(Phase::Closing, Action::Close)
        } else if shutting_down {
            self.quiet_plan(Phase::Idling, Action::Idle)
        } else {
            Plan {
                session: self.at(Phase::Sending { send_time: now }),
                action: Action::Send,
                report: None,
                effect: Effect::Nothing,
                logged: if self.pipeline { Some(now) } else { None },
            }
        }
    }

    /// The session cannot go on with its configuration.
    pub open spec fn abort(self, why: Abort) -> Plan {
        self.quiet_plan(Phase::Finished(Outcome::Aborted(why)), Action::Finish(Outcome::Aborted(why)))
    }

    /// The main loop begins: it needs a message to repeat, which a pipelined
    /// WebSocket connection looks for only after starting its reader, and a
    /// pipelined TCP connection before; a pipelined connection starts its reader.
    pub open spec fn begin_loop(self, config: Config, shutting_down: bool, now: u64) -> Plan {
        if self.pipeline && self.transport == Transport::WebSocket {
            self.quiet_plan(Phase::StartingReader, Action::StartReader)
        } else if config.message is None {
            self.abort(Abort::NoMessage)
        } else if self.pipeline {
            self.quiet_plan(Phase::StartingReader, Action::StartReader)
        } else {
            Session { start_time: now, ..self }.loop_top(config, shutting_down, now)
        }
    }

    /// The reader runs: the main loop starts, if there is a message to repeat.
    pub open spec fn after_reader(self, config: Config, shutting_down: bool, now: u64) -> Plan {
        if config.message is None {
            self.abort(Abort::NoMessage)
        } else {
            Session { start_time: now, ..self }.loop_top(config, shutting_down, now)
        }
    }

    /// Connected (and configured): send the first message if there is one.
    pub open spec fn after_connect(self, config: Config, shutting_down: bool, now: u64) -> Plan {
        if config.first_message is Some {
            self.quiet_plan(Phase::SendingFirst { start: now }, Action::SendFirst)
        } else {
            self.begin_loop(config, shutting_down, now)
        }
    }

    /// Pacing at the configured rate: wait out what is left of the interval since
    /// the message was sent.
    pub open spec fn pace(self, config: Config, shutting_down: bool, send_time: u64, now: u64) -> Plan {
        match config.message_rate {
            Some(rate) => if rate == 0 {
                self.abort(Abort::ZeroRate)
            } else {
                let target = pace_interval_ns(rate);
                let e = elapsed_ns(now, send_time);
                if e < target {
                    self.quiet_plan(Phase::Sleeping, Action::Sleep((target - e) as u64))
                } else {
                    self.loop_top(config, shutting_down, now)
                }
            },
            None => self.loop_top(config, shutting_down, now),
        }
    }

    /// The end of a round: every hundredth message lets other tasks run, then the
    /// pacing.
    pub open spec fn tail(self, config: Config, shutting_down: bool, send_time: u64, now: u64) -> Plan {
        if self.counter % LATENCY_SAMPLE_EVERY == 0 {
            self.quiet_plan(Phase::Yielding { send_time }, Action::Yield)
        } else {
            self.pace(config, shutting_down, send_time, now)
        }
    }

    /// The reply to a message of the main loop (not pipelined). The end of the
    /// stream ends the round without an error; a read error is counted.
    pub open spec fn on_reply(self, config: Config, shutting_down: bool, send_time: u64, reply: Reply, now: u64) -> Plan {
        let exchange = |received: usize| Effect::Exchange {
            latency_us: (elapsed_ns(now, send_time) / NANOS_PER_MICRO) as u64,
            sample_count: self.counter,
            sent: message_len(config),
            received,
        };
        let failed = self.loop_top(config, shutting_down, now).with(
            report_if(config, shutting_down, Failure::ReceiveFailed),
            Effect::ConnectionError,
        );
        match self.transport {
            Transport::Tcp => match reply {
                Reply::Data(n) => if n == message_len(config) {
                    self.tail(config, shutting_down, send_time, now).with(None, exchange(n))
                } else {
                    self.loop_top(config, shutting_down, now)
                },
                Reply::Closed => self.loop_top(config, shutting_down, now),
                _ => failed,
            },
            Transport::WebSocket => match reply {
                Reply::Data(n) => self.tail(config, shutting_down, send_time, now).with(None, exchange(n)),
                Reply::Failed => failed,
                _ => self.tail(config, shutting_down, send_time, now),
            },
        }
    }

    /// The reply to the first message.
    pub open spec fn on_first_reply(self, config: Config, shutting_down: bool, start: u64, reply: Reply, now: u64) -> Plan {
        let exchange = |received: usize| Effect::Exchange {
            latency_us: (elapsed_ns(now, start) / NANOS_PER_MICRO) as u64,
            sample_count: 0,
            sent: first_message_len(config),
            received,
        };
        match self.transport {
            Transport::Tcp => match reply {
                Reply::Data(_) => self.begin_loop(config, shutting_down, now).with(
                    None,
                    exchange(first_message_len(config)),
                ),
                _ => self.stop(config, shutting_down, Failure::FirstReceiveFailed),
            },
            Transport::WebSocket => match reply {
                Reply::Data(n) => self.begin_loop(config, shutting_down, now).with(None, exchange(n)),
                Reply::Failed => self.stop(config, shutting_down, Failure::FirstReceiveFailed),
                _ => self.stop(config, shutting_down, Failure::FirstReplyUnexpected),
            },
        }
    }

    /// The transition of a started session on `event` at time `now`, given whether
    /// the run is shutting down, before the connection's lifetime is applied.
    pub open spec fn transition(self, config: Config, shutting_down: bool, event: Event, now: u64) -> Plan {
        let ignored = self.quiet_plan(self.phase, self.pending());
        let closing = self.quiet_plan(Phase::Closing, Action::Close);
        match self.phase {
            Phase::Connecting => match event {
                Event::Connected => if self.transport == Transport::Tcp && config.nagle {
                    self.quiet_plan(Phase::SettingNodelay, Action::SetNodelay)
                } else {
                    self.after_connect(config, shutting_down, now)
                },
                Event::ConnectFailed => self.stop(config, shutting_down, Failure::ConnectFailed),
                Event::ConnectTimedOut => self.stop(config, shutting_down, Failure::ConnectTimedOut),
                _ => ignored,
            },
            Phase::SettingNodelay => match event {
                Event::NodelaySet => self.after_connect(config, shutting_down, now),
                Event::NodelayFailed => self.quiet_plan(
                    Phase::Finished(Outcome::Failed),
                    Action::Finish(Outcome::Failed),
                ),
                _ => ignored,
            },
            Phase::SendingFirst { start } => match event {
                Event::Sent => self.quiet_plan(Phase::ReceivingFirst { start }, Action::ReceiveFirst),
                Event::SendFailed => self.stop(config, shutting_down, Failure::FirstSendFailed),
                _ => ignored,
            },
            Phase::ReceivingFirst { start } => match event {
                Event::Received(reply) => self.on_first_reply(config, shutting_down, start, reply, now),
                _ => ignored,
            },
            Phase::StartingReader => match event {
                Event::ReaderStarted => self.after_reader(config, shutting_down, now),
                _ => ignored,
            },
            Phase::Idling => match event {
                Event::Yielded => self.loop_top(config, shutting_down, now),
                Event::ShutdownSignalled | Event::LifetimeOver => closing,
                _ => ignored,
            },
            Phase::Sending { send_time } => match event {
                Event::Sent => {
                    let s = Session { counter: (self.counter + 1) as usize, ..self };
                    if self.pipeline {
                        s.tail(config, shutting_down, send_time, now)
                    } else {
                        s.quiet_plan(Phase::Receiving { send_time }, Action::Receive)
                    }
                },
                Event::SendFailed => self.loop_top(config, shutting_down, now).with(
                    report_if(config, shutting_down, Failure::SendFailed),
                    Effect::ConnectionError,
                ),
                Event::ShutdownSignalled | Event::LifetimeOver => closing,
                _ => ignored,
            },
            Phase::Receiving { send_time } => match event {
                Event::Received(reply) => self.on_reply(config, shutting_down, send_time, reply, now),
                Event::ShutdownSignalled | Event::LifetimeOver => closing,
                _ => ignored,
            },
            Phase::Yielding { send_time } => match event {
                Event::Yielded => self.pace(config, shutting_down, send_time, now),
                Event::ShutdownSignalled | Event::LifetimeOver => closing,
                _ => ignored,
            },
            Phase::Sleeping => match event {
                Event::Slept => self.loop_top(config, shutting_down, now),
                Event::ShutdownSignalled | Event::LifetimeOver => closing,
                _ => ignored,
            },
            Phase::Closing => match event {
                Event::Closed | Event::LifetimeOver => Plan {
                    session: self.at(Phase::Finished(Outcome::Completed)),
                    action: Action::Finish(Outcome::Completed),
                    report: None,
                    effect: Effect::Completed,
                    logged: None,
                },
                _ => ignored,
            },
            Phase::Created | Phase::Finished(_) => ignored,
        }
    }
}


impl Session {
    /// Whether the session is in its main loop (not closing).
    pub open spec fn in_loop(self) -> bool {
        self.phase is Idling || self.phase is Sending || self.phase is Receiving
            || self.phase is Yielding || self.phase is Sleeping
    }

    /// Whether the connection has lived its lifetime at `now`.
    pub open spec fn expired(self, config: Config, now: u64) -> bool {
        config.channel_lifetime matches Some(l) && elapsed_ns(now, self.start_time) >= l
    }

    /// When the connection's lifetime ends, once its main loop runs.
    pub open spec fn deadline(self, config: Config) -> Option<u64> {
        match config.channel_lifetime {
            Some(l) => if self.in_loop() || self.phase == Phase::Closing {
                Some(if self.start_time + l > u64::MAX { u64::MAX } else { (self.start_time + l) as u64 })
            } else {
                None
            },
            None => None,
        }
    }

    /// The transition of a started session on `event` at time `now`, given whether
    /// the run is shutting down: once the connection has lived its lifetime, a
    /// session in its main loop goes on to close, whatever it was doing, keeping
    /// what the event counted.
    pub open spec fn next(self, config: Config, shutting_down: bool, event: Event, now: u64) -> Plan {
        let p = self.transition(config, shutting_down, event, now);
        if self.in_loop() && self.expired(config, now) && p.session.in_loop() {
            Plan {
                session: p.session.at(Phase::Closing),
                action: Action::Close,
                report: p.report,
                effect: p.effect,
                logged: None,
            }
        } else {
            p
        }
    }
}

impl Plan {
    fn with_exec(self, report: Option<Failure>, effect: Effect) -> (p: Plan)
        ensures
            p == self.with(report, effect),
    {
        Plan { report, effect, ..self }
    }
}

impl Session {
    /// A session for `transport`, pipelined or not, not started yet.
    pub fn new(transport: Transport, pipeline: bool) -> (s: Session)
        ensures
            s == (Session { transport, pipeline, phase: Phase::Created, counter: 0, start_time: 0 }),
    {
        Session { transport, pipeline, phase: Phase::Created, counter: 0, start_time: 0 }
    }

    fn at_exec(self, phase: Phase) -> (s: Session)
        ensures
            s == self.at(phase),
    {
        Session { phase, ..self }
    }

    fn quiet_plan_exec(self, phase: Phase, action: Action) -> (p: Plan)
        ensures
            p == self.quiet_plan(phase, action),
    {
        Plan { session: self.at_exec(phase), action, report: None, effect: Effect::Nothing, logged: None }
    }

    fn pending_exec(self) -> (a: Action)
        ensures
            a == self.pending(),
    {
        match self.phase {
            Phase::Created | Phase::Connecting => Action::Connect,
            Phase::SettingNodelay => Action::SetNodelay,
            Phase::SendingFirst { .. } => Action::SendFirst,
            Phase::ReceivingFirst { .. } => Action::ReceiveFirst,
            Phase::StartingReader => Action::StartReader,
            Phase::Idling => Action::Idle,
            Phase::Sending { .. } => Action::Send,
            Phase::Receiving { .. } => Action::Receive,
            Phase::Yielding { .. } => Action::Yield,
            Phase::Sleeping => Action::Sleep(0),
            Phase::Closing => Action::Close,
            Phase::Finished(o) => Action::Finish(o),
        }
    }

    fn stop_exec(self, config: &Config, shutting_down: bool, f: Failure) -> (p: Plan)
        ensures
            p == self.stop(*config, shutting_down, f),
    {
        Plan {
            session: self.at_exec(Phase::Finished(Outcome::Stopped)),
            action: Action::Finish(Outcome::Stopped),
            report: report_exec(config, shutting_down, f),
            effect: Effect::ConnectionError,
            logged: None,
        }
    }

    fn loop_top_exec(self, config: &Config, shutting_down: bool, now: u64) -> (p: Plan)
        ensures
            p == self.loop_top(*config, shutting_down, now),
    {
        let expired = match config.channel_lifetime {
            Some(l) => elapsed(now, self.start_time) >= l,
            None => false,
        };
        if expired {
            self.quiet_plan_exec(Phase::Closing, Action::Close)
        } else if shutting_down {
            self.quiet_plan_exec(Phase::Idling, Action::Idle)
        } else {
            Plan {
                session: self.at_exec(Phase::Sending { send_time: now }),
                action: Action::Send,
                report: None,
                effect: Effect::Nothing,
                logged: if self.pipeline { Some(now) } else { None },
            }
        }
    }

    fn begin_loop_exec(self, config: &Config, shutting_down: bool, now: u64) -> (p: Plan)
        ensures
            p == self.begin_loop(*config, shutting_down, now),
    {
        if self.pipeline && self.transport == Transport::WebSocket {
            self.quiet_plan_exec(Phase::StartingReader, Action::StartReader)
        } else if config.message.is_none() {
            self.abort_exec(Abort::NoMessage)
        } else if self.pipeline {
            self.quiet_plan_exec(Phase::StartingReader, Action::StartReader)
        } else {
            Session { start_time: now, ..self }.loop_top_exec(config, shutting_down, now)
        }
    }

    fn abort_exec(self, why: Abort) -> (p: Plan)
        ensures
            p == self.abort(why),
    {
        self.quiet_plan_exec(Phase::Finished(Outcome::Aborted(why)), Action::Finish(Outcome::Aborted(why)))
    }

    fn after_reader_exec(self, config: &Config, shutting_down: bool, now: u64) -> (p: Plan)
        ensures
            p == self.after_reader(*config, shutting_down, now),
    {
        if config.message.is_none() {
            self.abort_exec(Abort::NoMessage)
        } else {
            Session { start_time: now, ..self }.loop_top_exec(config, shutting_down, now)
        }
    }

    fn after_connect_exec(self, config: &Config, shutting_down: bool, now: u64) -> (p: Plan)
        ensures
            p == self.after_connect(*config, shutting_down, now),
    {
        if config.first_message.is_some() {
            self.quiet_plan_exec(Phase::SendingFirst { start: now }, Action::SendFirst)
        } else {
            self.begin_loop_exec(config, shutting_down, now)
        }
    }

    fn pace_exec(self, config: &Config, shutting_down: bool, send_time: u64, now: u64) -> (p: Plan)
        ensures
            p == self.pace(*config, shutting_down, send_time, now),
    {
        match config.message_rate {
            Some(rate) => if rate == 0 {
                self.abort_exec(Abort::ZeroRate)
            } else {
                let target = pace_interval(rate);
                let e = elapsed(now, send_time);
                if e < target {
                    self.quiet_plan_exec(Phase::Sleeping, Action::Sleep(target - e))
                } else {
                    self.loop_top_exec(config, shutting_down, now)
                }
            },
            None => self.loop_top_exec(config, shutting_down, now),
        }
    }

    fn tail_exec(self, config: &Config, shutting_down: bool, send_time: u64, now: u64) -> (p: Plan)
        ensures
            p == self.tail(*config, shutting_down, send_time, now),
    {
        if self.counter % LATENCY_SAMPLE_EVERY == 0 {
            self.quiet_plan_exec(Phase::Yielding { send_time }, Action::Yield)
        } else {
            self.pace_exec(config, shutting_down, send_time, now)
        }
    }

    fn on_reply_exec(self, config: &Config, shutting_down: bool, send_time: u64, reply: Reply, now: u64) -> (p: Plan)
        ensures
            p == self.on_reply(*config, shutting_down, send_time, reply, now),
    {
        let latency_us = elapsed(now, send_time) / NANOS_PER_MICRO;
        let len = message_len_exec(config);
        match self.transport {
            Transport::Tcp => match reply {
                Reply::Data(n) => if n == len {
                    let e = Effect::Exchange { latency_us, sample_count: self.counter, sent: len, received: n };
                    self.tail_exec(config, shutting_down, send_time, now).with_exec(None, e)
                } else {
                    self.loop_top_exec(config, shutting_down, now)
                },
                Reply::Closed => self.loop_top_exec(config, shutting_down, now),
                _ => self.loop_top_exec(config, shutting_down, now).with_exec(
                    report_exec(config, shutting_down, Failure::ReceiveFailed),
                    Effect::ConnectionError,
                ),
            },
            Transport::WebSocket => match reply {
                Reply::Data(n) => {
                    let e = Effect::Exchange { latency_us, sample_count: self.counter, sent: len, received: n };
                    self.tail_exec(config, shutting_down, send_time, now).with_exec(None, e)
                },
                Reply::Failed => self.loop_top_exec(config, shutting_down, now).with_exec(
                    report_exec(config, shutting_down, Failure::ReceiveFailed),
                    Effect::ConnectionError,
                ),
                _ => self.tail_exec(config, shutting_down, send_time, now),
            },
        }
    }

    fn on_first_reply_exec(self, config: &Config, shutting_down: bool, start: u64, reply: Reply, now: u64) -> (p: Plan)
        ensures
            p == self.on_first_reply(*config, shutting_down, start, reply, now),
    {
        let latency_us = elapsed(now, start) / NANOS_PER_MICRO;
        let first_len = first_message_len_exec(config);
        match self.transport {
            Transport::Tcp => match reply {
                Reply::Data(_) => {
                    let e = Effect::Exchange { latency_us, sample_count: 0, sent: first_len, received: first_len };
                    self.begin_loop_exec(config, shutting_down, now).with_exec(None, e)
                },
                _ => self.stop_exec(config, shutting_down, Failure::FirstReceiveFailed),
            },
            Transport::WebSocket => match reply {
                Reply::Data(n) => {
                    let e = Effect::Exchange { latency_us, sample_count: 0, sent: first_len, received: n };
                    self.begin_loop_exec(config, shutting_down, now).with_exec(None, e)
                },
                Reply::Failed => self.stop_exec(config, shutting_down, Failure::FirstReceiveFailed),
                _ => self.stop_exec(config, shutting_down, Failure::FirstReplyUnexpected),
            },
        }
    }

    fn in_loop_exec(&self) -> (b: bool)
        ensures
            b == self.in_loop(),
    {
        match self.phase {
            Phase::Idling | Phase::Sending { .. } | Phase::Receiving { .. } | Phase::Yielding { .. }
            | Phase::Sleeping => true,
            _ => false,
        }
    }

    fn deadline_exec(&self, config: &Config) -> (d: Option<u64>)
        ensures
            d == self.deadline(*config),
    {
        match config.channel_lifetime {
            Some(l) => if self.in_loop_exec() || self.phase == Phase::Closing {
                Some(if self.start_time > u64::MAX - l { u64::MAX } else { self.start_time + l })
            } else {
                None
            },
            None => None,
        }
    }

    /// Decides the transition of this session on `event` at time `now`.
    pub fn plan(&self, config: &Config, shutting_down: bool, event: Event, now: u64) -> (p: Plan)
        requires
            self.counter < usize::MAX,
        ensures
            p == self.next(*config, shutting_down, event, now),
    {
        let p = self.transition_exec(config, shutting_down, event, now);
        let expired = match config.channel_lifetime {
            Some(l) => elapsed(now, self.start_time) >= l,
            None => false,
        };
        if self.in_loop_exec() && expired && p.session.in_loop_exec() {
            Plan {
                session: p.session.at_exec(Phase::Closing),
                action: Action::Close,
                report: p.report,
                effect: p.effect,
                logged: None,
            }
        } else {
            p
        }
    }

    fn transition_exec(&self, config: &Config, shutting_down: bool, event: Event, now: u64) -> (p: Plan)
        requires
            self.counter < usize::MAX,
        ensures
            p == self.transition(*config, shutting_down, event, now),
    {
        let s = *self;
        let ignored = s.quiet_plan_exec(s.phase, s.pending_exec());
        let closing = s.quiet_plan_exec(Phase::Closing, Action::Close);
        match s.phase {
            Phase::Connecting => match event {
                Event::Connected => if s.transport == Transport::Tcp && config.nagle {
                    s.quiet_plan_exec(Phase::SettingNodelay, Action::SetNodelay)
                } else {
                    s.after_connect_exec(config, shutting_down, now)
                },
                Event::ConnectFailed => s.stop_exec(config, shutting_down, Failure::ConnectFailed),
                Event::ConnectTimedOut => s.stop_exec(config, shutting_down, Failure::ConnectTimedOut),
                _ => ignored,
            },
            Phase::SettingNodelay => match event {
                Event::NodelaySet => s.after_connect_exec(config, shutting_down, now),
                Event::NodelayFailed => s.quiet_plan_exec(
                    Phase::Finished(Outcome::Failed),
                    Action::Finish(Outcome::Failed),
                ),
                _ => ignored,
            },
            Phase::SendingFirst { start } => match event {
                Event::Sent => s.quiet_plan_exec(Phase::ReceivingFirst { start }, Action::ReceiveFirst),
                Event::SendFailed => s.stop_exec(config, shutting_down, Failure::FirstSendFailed),
                _ => ignored,
            },
            Phase::ReceivingFirst { start } => match event {
                Event::Received(reply) => s.on_first_reply_exec(config, shutting_down, start, reply, now),
                _ => ignored,
            },
            Phase::StartingReader => match event {
                Event::ReaderStarted => s.after_reader_exec(config, shutting_down, now),
                _ => ignored,
            },
            Phase::Idling => match event {
                Event::Yielded => s.loop_top_exec(config, shutting_down, now),
                Event::ShutdownSignalled | Event::LifetimeOver => closing,
                _ => ignored,
            },
            Phase::Sending { send_time } => match event {
                Event::Sent => {
                    let s2 = Session { counter: s.counter + 1, ..s };
                    if s.pipeline {
                        s2.tail_exec(config, shutting_down, send_time, now)
                    } else {
                        s2.quiet_plan_exec(Phase::Receiving { send_time }, Action::Receive)
                    }
                },
                Event::SendFailed => s.loop_top_exec(config, shutting_down, now).with_exec(
                    report_exec(config, shutting_down, Failure::SendFailed),
                    Effect::ConnectionError,
                ),
                Event::ShutdownSignalled | Event::LifetimeOver => closing,
                _ => ignored,
            },
            Phase::Receiving { send_time } => match event {
                Event::Received(reply) => s.on_reply_exec(config, shutting_down, send_time, reply, now),
                Event::ShutdownSignalled | Event::LifetimeOver => closing,
                _ => ignored,
            },
            Phase::Yielding { send_time } => match event {
                Event::Yielded => s.pace_exec(config, shutting_down, send_time, now),
                Event::ShutdownSignalled | Event::LifetimeOver => closing,
                _ => ignored,
            },
            Phase::Sleeping => match event {
                Event::Slept => s.loop_top_exec(config, shutting_down, now),
                Event::ShutdownSignalled | Event::LifetimeOver => closing,
                _ => ignored,
            },
            Phase::Closing => match event {
                Event::Closed | Event::LifetimeOver => Plan {
                    session: s.at_exec(Phase::Finished(Outcome::Completed)),
                    action: Action::Finish(Outcome::Completed),
                    report: None,
                    effect: Effect::Completed,
                    logged: None,
                },
                _ => ignored,
            },
            Phase::Created | Phase::Finished(_) => ignored,
        }
    }
}

fn message_len_exec(config: &Config) -> (n: usize)
    ensures
        n == message_len(*config),
{
    match &config.message {
        Some(m) => m.len(),
        None => 0,
    }
}

fn first_message_len_exec(config: &Config) -> (n: usize)
    ensures
        n == first_message_len(*config),
{
    match &config.first_message {
        Some(m) => m.len(),
        None => 0,
    }
}


/// The statistics after an effect other than an exchange.
pub open spec fn plain_effect(s: StatsView, e: Effect) -> StatsView {
    match e {
        Effect::ConnectionError => s.after_connection_error(),
        Effect::Completed => s.after_connection_completed(),
        _ => s,
    }
}

/// The failure an exchange reports when the histogram refuses its latency.
pub open spec fn latency_report(refusal: Option<Refusal>) -> Option<Failure> {
    match refusal {
        Some(r) => Some(Failure::LatencyNotRecorded(r)),
        None => None,
    }
}

/// `next` is what an exchange can leave of `s`, and `report` what it reports:
/// the latency goes to the histogram as `record_latency` does it, then the request
/// is counted; a refused latency is reported unless the run is shutting down.
pub open spec fn exchange_step(s: StatsView, e: Effect, report: Option<Failure>, next: StatsView) -> bool {
    match e {
        Effect::Exchange { latency_us, sample_count, sent, received } => exists|mid: StatsView|
            #[trigger] s.latency_step(latency_us, sample_count, mid)
            && next == mid.after_request(sent as u64, received as u64)
            && (report is Some ==> (report matches Some(Failure::LatencyNotRecorded(_))) && mid == s
                && !s.shutting_down && s.samples_latency(sample_count) && latency_us >= s.latency_room)
            && (!s.latency_auto_resize ==> report == (if s.samples_latency(sample_count)
                && latency_us >= s.latency_room && !s.shutting_down {
                Some(Failure::LatencyNotRecorded(Refusal::ValueOutOfRange))
            } else {
                None
            })),
        _ => false,
    }
}

/// Applies an effect to the statistics; returns the failure to report from
/// recording a latency, if any.
fn apply_effect(stats: &mut Stats, e: Effect) -> (report: Option<Failure>)
    ensures
        e is Exchange ==> exchange_step(old(stats)@, e, report, final(stats)@),
        !(e is Exchange) ==> report is None && final(stats)@ == plain_effect(old(stats)@, e)
            && final(stats).latency_histogram == old(stats).latency_histogram,
{
    match e {
        Effect::Nothing => None,
        Effect::ConnectionError => {
            stats.record_connection_error();
            None
        },
        Effect::Completed => {
            stats.success_connections = stats.success_connections.wrapping_add(1);
            None
        },
        Effect::Exchange { latency_us, sample_count, sent, received } => {
            let ghost s0 = stats@;
            let refusal = stats.record_latency(latency_us, sample_count);
            let ghost mid = stats@;
            stats.record_request(sent, received);
            let report = match refusal {
                Some(r) => Some(Failure::LatencyNotRecorded(r)),
                None => None,
            };
            assert(s0.latency_step(latency_us, sample_count, mid));
            report
        },
    }
}

impl Session {
    /// Starts the session: the connection is counted and opened.
    pub fn start(&mut self, stats: &mut Stats) -> (r: Step)
        requires
            old(self).phase == Phase::Created,
        ensures
            *final(self) == old(self).at(Phase::Connecting),
            r == (Step { action: Action::Connect, report: None, deadline: None }),
            final(stats)@ == old(stats)@.after_connection_opened(),
            final(stats).latency_histogram == old(stats).latency_histogram,
    {
        stats.total_connections = stats.total_connections.wrapping_add(1);
        self.phase = Phase::Connecting;
        Step { action: Action::Connect, report: None, deadline: None }
    }

    /// Takes the session one step on `event` at time `now`: the session moves to
    /// the next phase, the statistics count what happened, a pipelined send time
    /// goes to `log`, and the next action comes back with the failure to report.
    pub fn step(
        &mut self,
        config: &Config,
        stats: &mut Stats,
        log: &mut SendLog,
        event: Event,
        now: u64,
    ) -> (r: Step)
        requires
            old(self).counter < usize::MAX,
        ensures
            ({
                let p = old(self).next(*config, old(stats)@.shutting_down, event, now);
                &&& *final(self) == p.session
                &&& r.action == p.action
                &&& r.deadline == p.session.deadline(*config)
                &&& p.effect is Exchange ==> exchange_step(old(stats)@, p.effect, r.report, final(stats)@)
                &&& !(p.effect is Exchange) ==> r.report == p.report
                    && final(stats)@ == plain_effect(old(stats)@, p.effect)
                &&& p.logged matches Some(t) ==> final(log)@ == old(log)@.push(t)
                &&& p.logged is None ==> final(log)@ == old(log)@
            }),
    {
        let p = self.plan(config, stats.is_shutting_down(), event, now);
        *self = p.session;
        if let Some(t) = p.logged {
            log.push(t);
        }
        let latency_report = apply_effect(stats, p.effect);
        let report = if let Effect::Exchange { .. } = p.effect { latency_report } else { p.report };
        Step { action: p.action, report, deadline: p.session.deadline_exec(config) }
    }
}

/// The task that reads the replies of a pipelined connection and matches each
/// with the oldest send time still waiting.
#[derive(Clone, Copy, Debug, PartialEq, Eq, Structural)]
pub struct PipelineReader {
    pub transport: Transport,
    /// Bytes of a reply read at once (TCP).
    pub expected_len: usize,
    /// Bytes counted as sent per answered request.
    pub sent_len: usize,
    /// Replies read.
    pub counter: usize,
    pub stopped: bool,
}

/// Everything one reader step decides.
#[derive(Clone, Copy, Debug, PartialEq, Eq, Structural)]
pub struct ReaderPlan {
    pub reader: PipelineReader,
    pub keep_reading: bool,
    pub report: Option<Failure>,
    pub effect: Effect,
    /// Whether the oldest send time is taken from the log.
    pub pops: bool,
}

/// What a reader step hands back to the caller.
#[derive(Clone, Copy, Debug, PartialEq, Eq, Structural)]
pub struct ReaderStep {
    pub keep_reading: bool,
    pub report: Option<Failure>,
}

impl PipelineReader {
    /// The reader of a connection: a TCP reply is as long as the message, and an
    /// answered request counts the message's length as sent.
    pub fn new(transport: Transport, config: &Config) -> (r: PipelineReader)
        ensures
            r == (PipelineReader {
                transport,
                expected_len: message_len(*config),
                sent_len: message_len(*config),
                counter: 0,
                stopped: false,
            }),
            config.message matches Some(m) ==> r.expected_len == m.len() && r.sent_len == m.len(),
    {
        let len = message_len_exec(config);
        PipelineReader {
            transport,
            expected_len: len,
            sent_len: len,
            counter: 0,
            stopped: false,
        }
    }

    /// The reader's transition on `reply` at time `now`, when `log` holds the
    /// waiting send times.
    pub open spec fn next(self, config: Config, shutting_down: bool, log: Seq<u64>, reply: Reply, now: u64) -> ReaderPlan {
        let done = PipelineReader { stopped: true, ..self };
        let matched = |received: usize| {
            let r = PipelineReader { counter: (self.counter + 1) as usize, ..self };
            ReaderPlan {
                reader: r,
                keep_reading: true,
                report: None,
                effect: if log.len() > 0 {
                    Effect::Exchange {
                        latency_us: (elapsed_ns(now, log[0]) / NANOS_PER_MICRO) as u64,
                        sample_count: r.counter,
                        sent: self.sent_len,
                        received,
                    }
                } else {
                    Effect::Nothing
                },
                pops: true,
            }
        };
        let failed = ReaderPlan {
            reader: done,
            keep_reading: false,
            report: report_if(config, shutting_down, Failure::ReceiveFailed),
            effect: Effect::ConnectionError,
            pops: false,
        };
        let ended = ReaderPlan { reader: done, keep_reading: false, report: None, effect: Effect::Nothing, pops: false };
        let skip = ReaderPlan { reader: self, keep_reading: true, report: None, effect: Effect::Nothing, pops: false };
        if self.stopped {
            ReaderPlan { reader: self, keep_reading: false, report: None, effect: Effect::Nothing, pops: false }
        } else {
            match self.transport {
                Transport::Tcp => match reply {
                    Reply::Data(n) => if n == self.expected_len { matched(n) } else { ended },
                    Reply::Closed => ended,
                    _ => failed,
                },
                Transport::WebSocket => match reply {
                    Reply::Data(n) => matched(n),
                    Reply::Other => skip,
                    Reply::Closed => ended,
                    Reply::Failed => failed,
                },
            }
        }
    }

    /// Handles one reply: a full one is matched with the oldest waiting send time
    /// and counted with its latency; a short TCP read or the end of the stream
    /// stops the reader; an error stops it and is counted.
    pub fn on_reply(
        &mut self,
        config: &Config,
        stats: &mut Stats,
        log: &mut SendLog,
        reply: Reply,
        now: u64,
    ) -> (r: ReaderStep)
        requires
            old(self).counter < usize::MAX,
        ensures
            ({
                let p = old(self).next(*config, old(stats)@.shutting_down, old(log)@, reply, now);
                &&& *final(self) == p.reader
                &&& r.keep_reading == p.keep_reading
                &&& p.effect is Exchange ==> exchange_step(old(stats)@, p.effect, r.report, final(stats)@)
                &&& !(p.effect is Exchange) ==> r.report == p.report
                    && final(stats)@ == plain_effect(old(stats)@, p.effect)
                &&& p.pops && old(log)@.len() > 0 ==> final(log)@ == old(log)@.drop_first()
                &&& !(p.pops && old(log)@.len() > 0) ==> final(log)@ == old(log)@
            }),
    {
        if self.stopped {
            return ReaderStep { keep_reading: false, report: None };
        }
        let accepted = match self.transport {
            Transport::Tcp => match reply {
                Reply::Data(n) => n == self.expected_len,
                _ => false,
            },
            Transport::WebSocket => match reply {
                Reply::Data(_) => true,
                _ => false,
            },
        };
        if accepted {
            let received = match reply {
                Reply::Data(n) => n,
                _ => 0,
            };
            self.counter = self.counter + 1;
            match log.pop() {
                Some(sent_at) => {
                    let e = Effect::Exchange {
                        latency_us: elapsed(now, sent_at) / NANOS_PER_MICRO,
                        sample_count: self.counter,
                        sent: self.sent_len,
                        received,
                    };
                    let report = apply_effect(stats, e);
                    ReaderStep { keep_reading: true, report }
                },
                None => ReaderStep { keep_reading: true, report: None },
            }
        } else {
            let keep = self.transport == Transport::WebSocket && reply == Reply::Other;
            if keep {
                ReaderStep { keep_reading: true, report: None }
            } else {
                self.stopped = true;
                let failed = match reply {
                    Reply::Failed => true,
                    Reply::Other => self.transport == Transport::Tcp,
                    _ => false,
                };
                if failed {
                    let report = report_exec(config, stats.is_shutting_down(), Failure::ReceiveFailed);
                    stats.record_connection_error();
                    ReaderStep { keep_reading: false, report }
                } else {
                    ReaderStep { keep_reading: false, report: None }
                }
            }
        }
    }
}


/// What a run of steps decides, step by step: each step is (whether the run is
/// shutting down, the event, the time).
pub open spec fn run_plans(s: Session, config: Config, steps: Seq<(bool, Event, u64)>) -> Seq<Plan>
    decreases steps.len(),
{
    if steps.len() == 0 {
        Seq::empty()
    } else {
        let p = s.next(config, steps[0].0, steps[0].1, steps[0].2);
        seq![p] + run_plans(p.session, config, steps.drop_first())
    }
}

/// A finished session stays as it is: any event gets its outcome back, and
/// nothing is counted.
pub proof fn lemma_finished_is_final(s: Session, config: Config, shutting_down: bool, event: Event, now: u64)
    requires
        s.phase is Finished,
    ensures
        ({
            let p = s.next(config, shutting_down, event, now);
            &&& p.session == s
            &&& p.action == Action::Finish(s.phase->Finished_0)
            &&& p.effect == Effect::Nothing
            &&& p.report is None
            &&& p.logged is None
        }),
{
}

/// A connection counts as completed exactly when it is closed at the end of
/// its main loop (or its lifetime runs out while closing), and it is then
/// finished.
pub proof fn lemma_completion_only_on_close(s: Session, config: Config, shutting_down: bool, event: Event, now: u64)
    ensures
        ({
            let p = s.next(config, shutting_down, event, now);
            &&& p.effect == Effect::Completed <==> (s.phase == Phase::Closing
                && (event == Event::Closed || event == Event::LifetimeOver))
            &&& p.effect == Effect::Completed ==> p.session.phase == Phase::Finished(Outcome::Completed)
                && p.action == Action::Finish(Outcome::Completed)
        }),
{
}

/// A session that stops on a failure counts exactly one connection error in the
/// step that stops it.
pub proof fn lemma_stop_counts_one_error(s: Session, config: Config, shutting_down: bool, event: Event, now: u64)
    requires
        !(s.phase is Finished),
        s.next(config, shutting_down, event, now).session.phase == Phase::Finished(Outcome::Stopped),
    ensures
        s.next(config, shutting_down, event, now).effect == Effect::ConnectionError,
{
}

/// Once the run is shutting down, no new message is started: a session is only
/// asked to send if it was already waiting on that send.
pub proof fn lemma_no_new_send_while_shutting_down(s: Session, config: Config, event: Event, now: u64)
    ensures
        ({
            let p = s.next(config, true, event, now);
            p.session.phase is Sending ==> s.phase is Sending && p.session == s
        }),
{
}

/// The counter of a session counts the messages written in its main loop.
pub proof fn lemma_counter_counts_sends(s: Session, config: Config, shutting_down: bool, event: Event, now: u64)
    requires
        s.counter < usize::MAX,
    ensures
        s.next(config, shutting_down, event, now).session.counter == if s.phase is Sending && event == Event::Sent {
            s.counter + 1
        } else {
            s.counter as int
        },
{
}

/// Steps of a started session never count a new connection: each session is
/// counted once, by `Session::start`.
pub proof fn lemma_step_keeps_connection_count(s: StatsView, e: Effect, report: Option<Failure>, next: StatsView)
    requires
        exchange_step(s, e, report, next) || next == plain_effect(s, e),
    ensures
        next.total_connections == s.total_connections,
{
}

proof fn lemma_run_plans_len(s: Session, config: Config, steps: Seq<(bool, Event, u64)>)
    ensures
        run_plans(s, config, steps).len() == steps.len(),
    decreases steps.len(),
{
    if steps.len() > 0 {
        let p = s.next(config, steps[0].0, steps[0].1, steps[0].2);
        lemma_run_plans_len(p.session, config, steps.drop_first());
    }
}

proof fn lemma_finished_run_is_quiet(s: Session, config: Config, steps: Seq<(bool, Event, u64)>)
    requires
        s.phase is Finished,
    ensures
        forall|i: int| 0 <= i < steps.len() ==> (#[trigger] run_plans(s, config, steps)[i]).effect == Effect::Nothing
            && run_plans(s, config, steps)[i].session == s,
    decreases steps.len(),
{
    if steps.len() > 0 {
        lemma_finished_run_is_quiet(s, config, steps.drop_first());
        lemma_run_plans_len(s, config, steps.drop_first());
        let rest = run_plans(s, config, steps.drop_first());
        assert forall|i: int| 0 <= i < steps.len() implies (#[trigger] run_plans(s, config, steps)[i]).effect == Effect::Nothing
            && run_plans(s, config, steps)[i].session == s by {
            if i > 0 {
                assert(run_plans(s, config, steps)[i] == rest[i - 1]);
            }
        }
    }
}

/// A session counts as completed at most once, whatever events follow.
pub proof fn lemma_completes_at_most_once(s: Session, config: Config, steps: Seq<(bool, Event, u64)>)
    ensures
        forall|i: int, j: int|
            0 <= i < j < steps.len() ==> !((#[trigger] run_plans(s, config, steps)[i]).effect == Effect::Completed
                && (#[trigger] run_plans(s, config, steps)[j]).effect == Effect::Completed),
    decreases steps.len(),
{
    if steps.len() > 0 {
        let p = s.next(config, steps[0].0, steps[0].1, steps[0].2);
        let rest = run_plans(p.session, config, steps.drop_first());
        let all = run_plans(s, config, steps);
        lemma_run_plans_len(p.session, config, steps.drop_first());
        assert(all == seq![p] + rest);
        lemma_completes_at_most_once(p.session, config, steps.drop_first());
        if p.effect == Effect::Completed {
            lemma_completion_only_on_close(s, config, steps[0].0, steps[0].1, steps[0].2);
            lemma_finished_run_is_quiet(p.session, config, steps.drop_first());
        }
        assert forall|i: int, j: int|
            0 <= i < j < steps.len() implies !((#[trigger] all[i]).effect == Effect::Completed
                && (#[trigger] all[j]).effect == Effect::Completed) by {
            assert(all[j] == rest[j - 1]);
            if i > 0 {
                assert(all[i] == rest[i - 1]);
            }
        }
    }
}


/// Pacing at `rate` messages per second keeps the interval: either the session
/// sleeps exactly what is left of the interval since the message was sent, or
/// the interval has already passed.
pub proof fn lemma_pacing_fills_the_interval(
    s: Session,
    config: Config,
    shutting_down: bool,
    send_time: u64,
    now: u64,
    rate: u64,
)
    requires
        config.message_rate == Some(rate),
        rate > 0,
    ensures
        ({
            let p = s.pace(config, shutting_down, send_time, now);
            &&& p.action matches Action::Sleep(d) ==> elapsed_ns(now, send_time) + d == pace_interval_ns(rate)
            &&& !(p.action is Sleep) ==> elapsed_ns(now, send_time) >= pace_interval_ns(rate)
        }),
{
}


/// A connection's lifetime bounds its main loop: once it has lived it, whatever
/// happens next, the session starts nothing more and goes on to close (or stops
/// on a configuration it cannot run with).
pub proof fn lemma_lifetime_ends_the_loop(s: Session, config: Config, shutting_down: bool, event: Event, now: u64)
    requires
        s.in_loop(),
        s.expired(config, now),
    ensures
        ({
            let p = s.next(config, shutting_down, event, now);
            &&& p.action == Action::Close || p.action is Finish
            &&& !p.session.in_loop()
            &&& p.logged is None
        }),
{
}


/// What happens on a pipelined connection, as its reader sees it: the writer
/// notes a send time, or the reader gets a reply at some time.
#[derive(Clone, Copy, Debug, PartialEq, Eq, Structural)]
pub enum PipelineOp {
    Sent(u64),
    Replied(Reply, u64),
}

/// A reader's run over `ops` from a log holding `log`: the reader after it, the
/// send times still waiting, and the send times the counted replies were
/// matched with, in order.
pub open spec fn reader_run(
    r: PipelineReader,
    config: Config,
    shutting_down: bool,
    log: Seq<u64>,
    ops: Seq<PipelineOp>,
) -> (PipelineReader, Seq<u64>, Seq<u64>)
    decreases ops.len(),
{
    if ops.len() == 0 {
        (r, log, Seq::empty())
    } else {
        let (r1, held, matched) = reader_run(r, config, shutting_down, log, ops.drop_last());
        match ops.last() {
            PipelineOp::Sent(t) => (r1, held.push(t), matched),
            PipelineOp::Replied(reply, now) => {
                let p = r1.next(config, shutting_down, held, reply, now);
                (
                    p.reader,
                    if p.pops && held.len() > 0 { held.drop_first() } else { held },
                    if p.effect is Exchange { matched.push(held[0]) } else { matched },
                )
            },
        }
    }
}

/// The send times noted by `ops`, in order.
pub open spec fn sent_times(ops: Seq<PipelineOp>) -> Seq<u64>
    decreases ops.len(),
{
    if ops.len() == 0 {
        Seq::empty()
    } else {
        match ops.last() {
            PipelineOp::Sent(t) => sent_times(ops.drop_last()).push(t),
            _ => sent_times(ops.drop_last()),
        }
    }
}

/// How many replies `ops` holds.
pub open spec fn replies(ops: Seq<PipelineOp>) -> nat
    decreases ops.len(),
{
    if ops.len() == 0 {
        0
    } else {
        replies(ops.drop_last()) + if ops.last() is Replied { 1nat } else { 0nat }
    }
}

/// Over a whole run of a pipelined connection, however sends and replies
/// interleave, replies are matched with send times first in, first out: the send
/// times the counted replies were measured from, followed by those still waiting,
/// are the ones waiting at first followed by the ones sent. So no more replies
/// are counted than send times were noted, nor than replies came.
pub proof fn lemma_reader_pairs_first_in_first_out(
    r: PipelineReader,
    config: Config,
    shutting_down: bool,
    log: Seq<u64>,
    ops: Seq<PipelineOp>,
)
    ensures
        ({
            let (_, held, matched) = reader_run(r, config, shutting_down, log, ops);
            &&& matched + held == log + sent_times(ops)
            &&& matched.len() <= log.len() + sent_times(ops).len()
            &&& matched.len() <= replies(ops)
        }),
    decreases ops.len(),
{
    if ops.len() > 0 {
        let rest = ops.drop_last();
        lemma_reader_pairs_first_in_first_out(r, config, shutting_down, log, rest);
        let (r1, held, matched) = reader_run(r, config, shutting_down, log, rest);
        match ops.last() {
            PipelineOp::Sent(t) => {
                assert(matched + held.push(t) == (matched + held).push(t));
            },
            PipelineOp::Replied(reply, now) => {
                let p = r1.next(config, shutting_down, held, reply, now);
                assert(p.effect is Exchange <==> p.pops && held.len() > 0);
                if p.effect is Exchange {
                    assert(matched.push(held[0]) + held.drop_first() == matched + held);
                }
            },
        }
    }
}


/// Whether the connection's lifetime has run out at `now`, written out.
pub open spec fn lifetime_over(config: Config, start_time: u64, now: u64) -> bool {
    config.channel_lifetime matches Some(l) && (if now >= start_time { now - start_time } else { 0 }) >= l
}

/// A reply to a ping-pong message, TCP or WebSocket, that is as long as the
/// repeated message (any binary reply on WebSocket) counts one request: the
/// message's length as sent, the reply's as received, the latency in whole
/// microseconds since that message's send time, as sample number `counter`.
pub proof fn lemma_pingpong_reply_counts_its_latency(
    s: Session,
    config: Config,
    shutting_down: bool,
    send_time: u64,
    m: Vec<u8>,
    n: usize,
    now: u64,
)
    requires
        !s.pipeline,
        s.phase == (Phase::Receiving { send_time }),
        config.message == Some(m),
        s.transport == Transport::Tcp ==> n == m.len(),
    ensures
        ({
            let p = s.next(config, shutting_down, Event::Received(Reply::Data(n)), now);
            &&& p.effect == (Effect::Exchange {
                latency_us: ((if now >= send_time { now - send_time } else { 0 }) / 1000) as u64,
                sample_count: s.counter,
                sent: m.len(),
                received: n,
            })
            &&& p.report is None
            &&& p.session.counter == s.counter
        }),
{
}

/// A TCP ping-pong read that comes back shorter or longer than the message
/// counts nothing and reports nothing.
pub proof fn lemma_pingpong_tcp_other_length_counts_nothing(
    s: Session,
    config: Config,
    shutting_down: bool,
    send_time: u64,
    m: Vec<u8>,
    n: usize,
    now: u64,
)
    requires
        !s.pipeline,
        s.transport == Transport::Tcp,
        s.phase == (Phase::Receiving { send_time }),
        config.message == Some(m),
        n != m.len(),
    ensures
        s.next(config, shutting_down, Event::Received(Reply::Data(n)), now).effect == Effect::Nothing,
        s.next(config, shutting_down, Event::Received(Reply::Data(n)), now).report is None,
{
}

/// Pacing at `rate` messages per second, in ping-pong and pipelined mode alike:
/// after a round whose message number is not a multiple of a hundred, while the
/// lifetime lasts, the session sleeps out what is left of a billion divided by
/// `rate` nanoseconds (rounded to the nearest) since the message's send time, if
/// anything is left. A pipelined round ends when its message is written, a
/// ping-pong round when its reply is counted.
pub proof fn lemma_rounds_are_paced(
    s: Session,
    config: Config,
    shutting_down: bool,
    send_time: u64,
    event: Event,
    rate: u64,
    now: u64,
)
    requires
        s.counter < usize::MAX,
        config.message is Some,
        config.message_rate == Some(rate),
        rate > 0,
        !lifetime_over(config, s.start_time, now),
        s.pipeline ==> s.phase == (Phase::Sending { send_time }) && event == Event::Sent
            && (s.counter + 1) % 100 != 0,
        !s.pipeline ==> s.phase == (Phase::Receiving { send_time })
            && event == Event::Received(Reply::Data(config.message->Some_0.len()))
            && s.counter % 100 != 0,
    ensures
        ({
            let interval: int = 1_000_000_000int / (rate as int) + if 2 * (1_000_000_000int % (rate as int)) >= rate {
                1int
            } else {
                0int
            };
            let elapsed: int = if now >= send_time { now - send_time } else { 0 };
            let p = s.next(config, shutting_down, event, now);
            &&& elapsed < interval ==> p.action == Action::Sleep((interval - elapsed) as u64)
                && p.session.phase == Phase::Sleeping
            &&& elapsed >= interval ==> !(p.action is Sleep)
        }),
{
}

/// Every hundredth message of a round lets other tasks run before the pacing,
/// in ping-pong and pipelined mode alike.
pub proof fn lemma_every_hundredth_round_yields(
    s: Session,
    config: Config,
    shutting_down: bool,
    send_time: u64,
    event: Event,
    now: u64,
)
    requires
        s.counter < usize::MAX,
        config.message is Some,
        !lifetime_over(config, s.start_time, now),
        s.pipeline ==> s.phase == (Phase::Sending { send_time }) && event == Event::Sent
            && (s.counter + 1) % 100 == 0,
        !s.pipeline ==> s.phase == (Phase::Receiving { send_time })
            && event == Event::Received(Reply::Data(config.message->Some_0.len()))
            && s.counter % 100 == 0,
    ensures
        s.next(config, shutting_down, event, now).action == Action::Yield,
        s.next(config, shutting_down, event, now).session.phase == (Phase::Yielding { send_time }),
{
}

/// The reply to the first message counts one request as sample number 0, with
/// the latency in whole microseconds since the first message was started: the
/// first message's length both ways on TCP, the reply's length as received on
/// WebSocket.
pub proof fn lemma_first_reply_counts_sample_zero(
    s: Session,
    config: Config,
    shutting_down: bool,
    start: u64,
    f: Vec<u8>,
    n: usize,
    now: u64,
)
    requires
        s.phase == (Phase::ReceivingFirst { start }),
        config.first_message == Some(f),
    ensures
        s.next(config, shutting_down, Event::Received(Reply::Data(n)), now).effect == (Effect::Exchange {
            latency_us: ((if now >= start { now - start } else { 0 }) / 1000) as u64,
            sample_count: 0,
            sent: f.len(),
            received: if s.transport == Transport::Tcp { f.len() } else { n },
        }),
{
}

/// A pipelined reader matches a full reply with the oldest send time waiting:
/// it counts one request (the message's length as sent, the reply's as
/// received), numbered by the replies read so far, with the latency in whole
/// microseconds since that send time, takes that send time from the log and
/// keeps reading. A reader made for a message reads replies as long as it.
pub proof fn lemma_reader_matches_full_reply_with_oldest_send(
    r: PipelineReader,
    config: Config,
    shutting_down: bool,
    log: Seq<u64>,
    m: Vec<u8>,
    n: usize,
    now: u64,
)
    requires
        !r.stopped,
        r.counter < usize::MAX,
        config.message == Some(m),
        r.expected_len == m.len(),
        r.sent_len == m.len(),
        r.transport == Transport::Tcp ==> n == m.len(),
        log.len() > 0,
    ensures
        ({
            let p = r.next(config, shutting_down, log, Reply::Data(n), now);
            &&& p.keep_reading
            &&& p.pops
            &&& p.report is None
            &&& p.reader.counter == r.counter + 1
            &&& p.effect == (Effect::Exchange {
                latency_us: ((if now >= log[0] { now - log[0] } else { 0 }) / 1000) as u64,
                sample_count: (r.counter + 1) as usize,
                sent: m.len(),
                received: n,
            })
        }),
{
}

} // verus!
