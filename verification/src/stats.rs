//! Counters and latency samples shared by all connections of a run.

use vstd::prelude::*;
use crate::histogram::{
    counts_with, doubled_past, histogram_auto_resize, histogram_counts, histogram_high,
    histogram_len, histogram_low, histogram_record, histogram_reset, histogram_room,
    histogram_sigfig, lowest_equivalent, new_histogram, no_counts, histogram_max, histogram_min_nz,
    highest_equivalent, max_after, min_nz_after, LatencyHistogram, Refusal,
};

verus! {

/// Highest latency, in microseconds, that the histogram is made to track.
pub const LATENCY_HIGH_US: u64 = 60_000_000;

/// Significant decimal digits the histogram keeps.
pub const LATENCY_SIGFIG: u8 = 3;

/// The smallest latency, in microseconds, that the histogram has no room for:
/// the first `2048 * 2^k` above `LATENCY_HIGH_US`.
pub const LATENCY_ROOM_US: u64 = 67_108_864;

/// One latency in this many is recorded in the histogram.
pub const LATENCY_SAMPLE_EVERY: usize = 100;

/// `x + y` wrapped round at 2^64, as an atomic `fetch_add` does it.
pub open spec fn wrapping_add_u64(x: u64, y: u64) -> u64 {
    vstd::wrapping::u64_specs::wrapping_add(x, y)
}

/// `x + 1`, saturating at `u64::MAX`.
pub open spec fn saturating_inc(x: u64) -> u64 {
    if x == u64::MAX { u64::MAX } else { (x + 1) as u64 }
}

/// Requests counted since the previous reading, and milliseconds passed since it.
#[derive(Clone, Copy, Debug, PartialEq, Eq, Structural)]
pub struct QpsSample {
    pub requests: u64,
    pub elapsed_ms: u64,
}

/// What the statistics hold, as plain values.
pub struct StatsView {
    pub total_connections: u64,
    pub success_connections: u64,
    pub total_requests: u64,
    pub total_bytes_sent: u64,
    pub total_bytes_received: u64,
    /// Number of latency samples in the histogram.
    pub samples: u64,
    /// The histogram's counts, keyed by the lowest value of each equivalence range.
    pub latencies: Map<u64, u64>,
    /// Lowest discernible latency of the histogram.
    pub latency_low: u64,
    /// Significant digits the histogram keeps.
    pub latency_sigfig: u8,
    /// Whether the histogram resizes itself.
    pub latency_auto_resize: bool,
    /// The smallest latency the histogram has no room for.
    pub latency_room: nat,
    /// What the histogram reports as its largest latency (`max`).
    pub latency_max: u64,
    /// What the histogram reports as its smallest latency above 0 (`min_nz`).
    pub latency_min_nonzero: u64,
    /// Highest trackable latency of the histogram.
    pub latency_high: u64,
    pub warmup: bool,
    pub shutting_down: bool,
    pub last_print_time: u64,
    pub last_print_count: u64,
    pub connection_errors: u64,
}

/// One operation on the statistics.
pub enum StatsOp {
    ConnectionOpened,
    ConnectionCompleted,
    Request { sent: u64, received: u64 },
    Latency { latency_us: u64, sample_count: usize },
    ConnectionError,
    EndWarmup { now_ms: u64 },
    ShutDown,
    Qps { now_ms: u64 },
}

impl StatsView {
    /// A completed request: counted, with its bytes, unless the run is warming up.
    pub open spec fn after_request(self, sent: u64, received: u64) -> StatsView {
        if self.warmup {
            self
        } else {
            StatsView {
                total_requests: wrapping_add_u64(self.total_requests, 1),
                total_bytes_sent: wrapping_add_u64(self.total_bytes_sent, sent),
                total_bytes_received: wrapping_add_u64(self.total_bytes_received, received),
                ..self
            }
        }
    }

    /// Whether a latency with this sample number is offered to the histogram.
    pub open spec fn samples_latency(self, sample_count: usize) -> bool {
        sample_count % LATENCY_SAMPLE_EVERY == 0 && !self.warmup
    }

    /// The histogram after it took one more sample.
    pub open spec fn after_sample(self, latency_us: u64) -> StatsView {
        StatsView {
            samples: saturating_inc(self.samples),
            latencies: counts_with(
                self.latencies,
                lowest_equivalent(self.latency_low, self.latency_sigfig, latency_us),
            ),
            latency_max: max_after(self.latency_max, self.latency_low, self.latency_sigfig, latency_us),
            latency_min_nonzero: min_nz_after(
                self.latency_min_nonzero,
                self.latency_low,
                self.latency_sigfig,
                latency_us,
            ),
            ..self
        }
    }

    /// `next` is a state that a latency report can lead to: unchanged when the
    /// sample is not taken; one more sample when it is taken and in range; when
    /// it is above the range, either unchanged or one more sample (with the range
    /// possibly widened).
    pub open spec fn latency_step(self, latency_us: u64, sample_count: usize, next: StatsView) -> bool {
        if !self.samples_latency(sample_count) {
            next == self
        } else if latency_us < self.latency_room {
            next == self.after_sample(latency_us)
        } else if !self.latency_auto_resize {
            next == self
        } else {
            next == self || next == (StatsView {
                latency_high: next.latency_high,
                latency_room: next.latency_room,
                ..self.after_sample(latency_us)
            })
        }
    }

    pub open spec fn after_connection_opened(self) -> StatsView {
        StatsView { total_connections: wrapping_add_u64(self.total_connections, 1), ..self }
    }

    pub open spec fn after_connection_completed(self) -> StatsView {
        StatsView { success_connections: wrapping_add_u64(self.success_connections, 1), ..self }
    }

    pub open spec fn after_connection_error(self) -> StatsView {
        StatsView { connection_errors: wrapping_add_u64(self.connection_errors, 1), ..self }
    }

    /// Warmup over: the request counters and the histogram start from zero.
    pub open spec fn after_end_warmup(self, now_ms: u64) -> StatsView {
        StatsView {
            warmup: false,
            total_requests: 0,
            total_bytes_sent: 0,
            total_bytes_received: 0,
            samples: 0,
            latencies: no_counts(),
            latency_max: highest_equivalent(self.latency_low, self.latency_sigfig, 0),
            latency_min_nonzero: u64::MAX,
            last_print_count: 0,
            last_print_time: now_ms,
            ..self
        }
    }

    pub open spec fn after_shut_down(self) -> StatsView {
        StatsView { shutting_down: true, ..self }
    }

    /// The reading of a rate: what came since the last reading, which `now_ms`
    /// and the present request count replace.
    pub open spec fn qps_sample(self, now_ms: u64) -> QpsSample {
        QpsSample {
            requests: (self.total_requests - self.last_print_count) as u64,
            elapsed_ms: (now_ms - self.last_print_time) as u64,
        }
    }

    pub open spec fn after_qps(self, now_ms: u64) -> StatsView {
        StatsView { last_print_time: now_ms, last_print_count: self.total_requests, ..self }
    }

    /// Whether a rate can be read at `now_ms` without a counter running backwards.
    pub open spec fn qps_ready(self, now_ms: u64) -> bool {
        self.last_print_time <= now_ms && self.last_print_count <= self.total_requests
    }

    /// `next` is a state that `op` can lead to from this one.
    pub open spec fn op_step(self, op: StatsOp, next: StatsView) -> bool {
        match op {
            StatsOp::ConnectionOpened => next == self.after_connection_opened(),
            StatsOp::ConnectionCompleted => next == self.after_connection_completed(),
            StatsOp::Request { sent, received } => next == self.after_request(sent, received),
            StatsOp::Latency { latency_us, sample_count } => self.latency_step(latency_us, sample_count, next),
            StatsOp::ConnectionError => next == self.after_connection_error(),
            StatsOp::EndWarmup { now_ms } => next == self.after_end_warmup(now_ms),
            StatsOp::ShutDown => next == self.after_shut_down(),
            StatsOp::Qps { now_ms } => self.qps_ready(now_ms) && next == self.after_qps(now_ms),
        }
    }
}

/// Counters and latency samples of a run.
pub struct Stats {
    pub total_connections: u64,
    pub success_connections: u64,
    pub total_requests: u64,
    pub total_bytes_sent: u64,
    pub total_bytes_received: u64,
    pub latency_histogram: LatencyHistogram,
    pub is_warmup: bool,
    pub is_shutting_down: bool,
    /// Wall-clock time, in milliseconds, of the last rate reading.
    pub last_print_time: u64,
    /// Request count at the last rate reading.
    pub last_print_count: u64,
    pub connection_errors: u64,
}

impl View for Stats {
    type V = StatsView;

    open spec fn view(&self) -> StatsView {
        StatsView {
            total_connections: self.total_connections,
            success_connections: self.success_connections,
            total_requests: self.total_requests,
            total_bytes_sent: self.total_bytes_sent,
            total_bytes_received: self.total_bytes_received,
            samples: histogram_len(self.latency_histogram),
            latencies: histogram_counts(self.latency_histogram),
            latency_low: histogram_low(self.latency_histogram),
            latency_sigfig: histogram_sigfig(self.latency_histogram),
            latency_auto_resize: histogram_auto_resize(self.latency_histogram),
            latency_room: histogram_room(self.latency_histogram),
            latency_max: histogram_max(self.latency_histogram),
            latency_min_nonzero: histogram_min_nz(self.latency_histogram),
            latency_high: histogram_high(self.latency_histogram),
            warmup: self.is_warmup,
            shutting_down: self.is_shutting_down,
            last_print_time: self.last_print_time,
            last_print_count: self.last_print_count,
            connection_errors: self.connection_errors,
        }
    }
}

impl Stats {
    /// Fresh statistics of a run that starts warming up at wall-clock `now_ms`.
    pub fn new(now_ms: u64) -> (s: Stats)
        ensures
            s@ == (StatsView {
                total_connections: 0,
                success_connections: 0,
                total_requests: 0,
                total_bytes_sent: 0,
                total_bytes_received: 0,
                samples: 0,
                latencies: no_counts(),
                latency_low: 1,
                latency_sigfig: LATENCY_SIGFIG,
                latency_auto_resize: false,
                latency_room: LATENCY_ROOM_US as nat,
                latency_max: 0,
                latency_min_nonzero: u64::MAX,
                latency_high: LATENCY_HIGH_US,
                warmup: true,
                shutting_down: false,
                last_print_time: now_ms,
                last_print_count: 0,
                connection_errors: 0,
            }),
    {
        proof {
            reveal_with_fuel(doubled_past, 20);
            assert(doubled_past(2048, LATENCY_HIGH_US as nat) == LATENCY_ROOM_US);
        }
        let hist = match new_histogram(1, LATENCY_HIGH_US, LATENCY_SIGFIG) {
            Ok(h) => h,
            Err(_) => vstd::pervasive::unreached(),
        };
        Stats {
            total_connections: 0,
            success_connections: 0,
            total_requests: 0,
            total_bytes_sent: 0,
            total_bytes_received: 0,
            latency_histogram: hist,
            is_warmup: true,
            is_shutting_down: false,
            last_print_time: now_ms,
            last_print_count: 0,
            connection_errors: 0,
        }
    }

    /// Offers the latency of the `sample_count`-th exchange to the histogram: every
    /// hundredth one, and none while warming up. Returns why the histogram refused
    /// it, when the run is not shutting down, that is, the failure to report.
    pub fn record_latency(&mut self, latency_us: u64, sample_count: usize) -> (report: Option<Refusal>)
        ensures
            old(self)@.latency_step(latency_us, sample_count, final(self)@),
            !old(self)@.samples_latency(sample_count) ==> *final(self) == *old(self),
            report is Some ==> final(self)@ == old(self)@ && !old(self)@.shutting_down
                && old(self)@.samples_latency(sample_count) && latency_us >= old(self)@.latency_room,
            !old(self)@.latency_auto_resize ==> report == (if old(self)@.samples_latency(sample_count)
                && latency_us >= old(self)@.latency_room && !old(self)@.shutting_down {
                Some(Refusal::ValueOutOfRange)
            } else {
                None
            }),
    {
        if sample_count % LATENCY_SAMPLE_EVERY == 0 && !self.is_warmup() {
            match histogram_record(&mut self.latency_histogram, latency_us) {
                Ok(()) => None,
                Err(refusal) => if self.is_shutting_down() { None } else { Some(refusal) },
            }
        } else {
            None
        }
    }

    /// Counts a completed request and its bytes, unless warming up.
    pub fn record_request(&mut self, bytes_sent: usize, bytes_received: usize)
        ensures
            final(self)@ == old(self)@.after_request(bytes_sent as u64, bytes_received as u64),
            final(self).latency_histogram == old(self).latency_histogram,
    {
        if !self.is_warmup() {
            self.total_requests = self.total_requests.wrapping_add(1);
            self.total_bytes_sent = self.total_bytes_sent.wrapping_add(bytes_sent as u64);
            self.total_bytes_received = self.total_bytes_received.wrapping_add(bytes_received as u64);
        }
    }

    /// Counts a failed connection, warming up or not.
    pub fn record_connection_error(&mut self)
        ensures
            final(self)@ == old(self)@.after_connection_error(),
            final(self).latency_histogram == old(self).latency_histogram,
    {
        self.connection_errors = self.connection_errors.wrapping_add(1);
    }

    /// Ends the warmup at wall-clock `now_ms`: counters, histogram and rate reading
    /// start over.
    pub fn end_warmup(&mut self, now_ms: u64)
        ensures
            final(self)@ == old(self)@.after_end_warmup(now_ms),
    {
        self.is_warmup = false;
        self.total_requests = 0;
        self.total_bytes_sent = 0;
        self.total_bytes_received = 0;
        histogram_reset(&mut self.latency_histogram);
        self.last_print_count = 0;
        self.last_print_time = now_ms;
    }

    pub fn is_warmup(&self) -> (b: bool)
        ensures
            b == self@.warmup,
    {
        self.is_warmup
    }

    pub fn set_shutting_down(&mut self)
        ensures
            final(self)@ == old(self)@.after_shut_down(),
            final(self).latency_histogram == old(self).latency_histogram,
    {
        self.is_shutting_down = true;
    }

    pub fn is_shutting_down(&self) -> (b: bool)
        ensures
            b == self@.shutting_down,
    {
        self.is_shutting_down
    }

    /// Reads the request rate at wall-clock `now_ms`: the requests counted and the
    /// milliseconds passed since the previous reading, which this one replaces.
    pub fn get_qps(&mut self, now_ms: u64) -> (q: QpsSample)
        requires
            old(self)@.qps_ready(now_ms),
        ensures
            q == old(self)@.qps_sample(now_ms),
            final(self)@ == old(self)@.after_qps(now_ms),
            final(self).latency_histogram == old(self).latency_histogram,
    {
        let current_count = self.total_requests;
        let last_time = self.last_print_time;
        self.last_print_time = now_ms;
        let last_count = self.last_print_count;
        self.last_print_count = current_count;
        QpsSample { requests: current_count - last_count, elapsed_ms: now_ms - last_time }
    }
}


/// `states` is a run of the statistics: each state comes from the one before by
/// the operation of the same index.
pub open spec fn valid_trace(states: Seq<StatsView>, ops: Seq<StatsOp>) -> bool {
    &&& states.len() == ops.len() + 1
    &&& forall|i: int| 0 <= i < ops.len() ==> #[trigger] states[i].op_step(ops[i], states[i + 1])
}

/// The statistics after requests of the given (sent, received) sizes, in order.
pub open spec fn after_requests(s: StatsView, requests: Seq<(u64, u64)>) -> StatsView
    decreases requests.len(),
{
    if requests.len() == 0 {
        s
    } else {
        let last = requests.last();
        after_requests(s, requests.drop_last()).after_request(last.0, last.1)
    }
}

/// Once the run is shutting down it stays so, whatever operations follow.
pub proof fn lemma_shutdown_is_permanent(states: Seq<StatsView>, ops: Seq<StatsOp>)
    requires
        valid_trace(states, ops),
        states[0].shutting_down,
    ensures
        forall|i: int| 0 <= i < states.len() ==> #[trigger] states[i].shutting_down,
{
    assert forall|i: int| 0 <= i < states.len() implies #[trigger] states[i].shutting_down by {
        lemma_shutdown_prefix(states, ops, i);
    }
}

proof fn lemma_shutdown_prefix(states: Seq<StatsView>, ops: Seq<StatsOp>, i: int)
    requires
        valid_trace(states, ops),
        states[0].shutting_down,
        0 <= i < states.len(),
    ensures
        states[i].shutting_down,
    decreases i,
{
    if i > 0 {
        lemma_shutdown_prefix(states, ops, i - 1);
        let j = i - 1;
        assert(states[j].op_step(ops[j], states[j + 1]));
    }
}

/// Once the warmup is over it never comes back, whatever operations follow.
pub proof fn lemma_warmup_never_returns(states: Seq<StatsView>, ops: Seq<StatsOp>)
    requires
        valid_trace(states, ops),
        !states[0].warmup,
    ensures
        forall|i: int| 0 <= i < states.len() ==> !(#[trigger] states[i].warmup),
{
    assert forall|i: int| 0 <= i < states.len() implies !(#[trigger] states[i].warmup) by {
        lemma_warmup_prefix(states, ops, i);
    }
}

proof fn lemma_warmup_prefix(states: Seq<StatsView>, ops: Seq<StatsOp>, i: int)
    requires
        valid_trace(states, ops),
        !states[0].warmup,
        0 <= i < states.len(),
    ensures
        !states[i].warmup,
    decreases i,
{
    if i > 0 {
        lemma_warmup_prefix(states, ops, i - 1);
        let j = i - 1;
        assert(states[j].op_step(ops[j], states[j + 1]));
    }
}

/// While the run warms up, requests and latencies leave the statistics as they
/// were, however many there are.
pub proof fn lemma_warmup_ignores_traffic(states: Seq<StatsView>, ops: Seq<StatsOp>)
    requires
        valid_trace(states, ops),
        states[0].warmup,
        forall|i: int| 0 <= i < ops.len() ==> (#[trigger] ops[i] is Request || ops[i] is Latency),
    ensures
        forall|i: int| 0 <= i < states.len() ==> #[trigger] states[i] == states[0],
{
    assert forall|i: int| 0 <= i < states.len() implies #[trigger] states[i] == states[0] by {
        lemma_warmup_traffic_prefix(states, ops, i);
    }
}

proof fn lemma_warmup_traffic_prefix(states: Seq<StatsView>, ops: Seq<StatsOp>, i: int)
    requires
        valid_trace(states, ops),
        states[0].warmup,
        forall|i: int| 0 <= i < ops.len() ==> (#[trigger] ops[i] is Request || ops[i] is Latency),
        0 <= i < states.len(),
    ensures
        states[i] == states[0],
    decreases i,
{
    if i > 0 {
        lemma_warmup_traffic_prefix(states, ops, i - 1);
        let j = i - 1;
        assert(states[j].op_step(ops[j], states[j + 1]));
        assert(ops[i - 1] is Request || ops[i - 1] is Latency);
    }
}

proof fn lemma_after_requests_counts(s: StatsView, requests: Seq<(u64, u64)>)
    requires
        !s.warmup,
        s.total_requests + requests.len() <= u64::MAX,
    ensures
        after_requests(s, requests).total_requests == s.total_requests + requests.len(),
        after_requests(s, requests).last_print_count == s.last_print_count,
        after_requests(s, requests).last_print_time == s.last_print_time,
        !after_requests(s, requests).warmup,
    decreases requests.len(),
{
    if requests.len() > 0 {
        lemma_after_requests_counts(s, requests.drop_last());
    }
}

/// A rate reading counts exactly the requests completed since the previous
/// reading, and the milliseconds between the two, when no counter wraps round.
pub proof fn lemma_qps_counts_requests_since_last_reading(
    s: StatsView,
    t0: u64,
    requests: Seq<(u64, u64)>,
    t1: u64,
)
    requires
        !s.warmup,
        t0 <= t1,
        s.total_requests + requests.len() <= u64::MAX,
    ensures
        ({
            let later = after_requests(s.after_qps(t0), requests);
            &&& later.qps_ready(t1)
            &&& later.qps_sample(t1) == (QpsSample { requests: requests.len() as u64, elapsed_ms: (t1 - t0) as u64 })
        }),
{
    lemma_after_requests_counts(s.after_qps(t0), requests);
}

/// After the warmup ends, the counters, the histogram and the rate reading hold
/// nothing of what came before, so that two runs that differ only in their
/// warmup traffic agree from then on.
pub proof fn lemma_end_warmup_forgets_warmup(a: StatsView, b: StatsView, now_ms: u64)
    requires
        a.total_connections == b.total_connections,
        a.success_connections == b.success_connections,
        a.connection_errors == b.connection_errors,
        a.shutting_down == b.shutting_down,
        a.latency_high == b.latency_high,
        a.latency_low == b.latency_low,
        a.latency_sigfig == b.latency_sigfig,
        a.latency_auto_resize == b.latency_auto_resize,
        a.latency_room == b.latency_room,
    ensures
        a.after_end_warmup(now_ms) == b.after_end_warmup(now_ms),
{
}


/// Whether an operation of the first `i` of `ops` ends the warmup.
pub open spec fn warmup_ended_before(ops: Seq<StatsOp>, i: int) -> bool {
    exists|j: int| 0 <= j < i && #[trigger] ops[j] is EndWarmup
}

/// Whether an operation of the first `i` of `ops` sets the run shutting down.
pub open spec fn shut_down_before(ops: Seq<StatsOp>, i: int) -> bool {
    exists|j: int| 0 <= j < i && #[trigger] ops[j] is ShutDown
}

/// The run warms up exactly until the warmup is ended: in a run that starts
/// warming up, a state is warming up if and only if no earlier operation ended
/// the warmup.
pub proof fn lemma_warmup_lasts_until_end_warmup(states: Seq<StatsView>, ops: Seq<StatsOp>)
    requires
        valid_trace(states, ops),
        states[0].warmup,
    ensures
        forall|i: int| 0 <= i < states.len() ==> (#[trigger] states[i].warmup <==> !warmup_ended_before(ops, i)),
{
    assert forall|i: int| 0 <= i < states.len() implies (#[trigger] states[i].warmup <==> !warmup_ended_before(ops, i)) by {
        lemma_warmup_until_prefix(states, ops, i);
    }
}

proof fn lemma_warmup_until_prefix(states: Seq<StatsView>, ops: Seq<StatsOp>, i: int)
    requires
        valid_trace(states, ops),
        states[0].warmup,
        0 <= i < states.len(),
    ensures
        states[i].warmup <==> !warmup_ended_before(ops, i),
    decreases i,
{
    if i > 0 {
        let j = i - 1;
        lemma_warmup_until_prefix(states, ops, j);
        assert(states[j].op_step(ops[j], states[j + 1]));
        if ops[j] is EndWarmup {
            assert(warmup_ended_before(ops, i));
        } else {
            assert(warmup_ended_before(ops, i) ==> warmup_ended_before(ops, j)) by {
                if warmup_ended_before(ops, i) {
                    let k = choose|k: int| 0 <= k < i && #[trigger] ops[k] is EndWarmup;
                    assert(k < j);
                }
            }
        }
    } else {
        assert(!warmup_ended_before(ops, 0));
    }
}

/// The run shuts down exactly when it is set to: in a run that is not shutting
/// down at first, a state is shutting down if and only if an earlier operation
/// set it so.
pub proof fn lemma_shutdown_starts_with_set_shutting_down(states: Seq<StatsView>, ops: Seq<StatsOp>)
    requires
        valid_trace(states, ops),
        !states[0].shutting_down,
    ensures
        forall|i: int| 0 <= i < states.len() ==> (#[trigger] states[i].shutting_down <==> shut_down_before(ops, i)),
{
    assert forall|i: int| 0 <= i < states.len() implies (#[trigger] states[i].shutting_down <==> shut_down_before(ops, i)) by {
        lemma_shutdown_since_prefix(states, ops, i);
    }
}

proof fn lemma_shutdown_since_prefix(states: Seq<StatsView>, ops: Seq<StatsOp>, i: int)
    requires
        valid_trace(states, ops),
        !states[0].shutting_down,
        0 <= i < states.len(),
    ensures
        states[i].shutting_down <==> shut_down_before(ops, i),
    decreases i,
{
    if i > 0 {
        let j = i - 1;
        lemma_shutdown_since_prefix(states, ops, j);
        assert(states[j].op_step(ops[j], states[j + 1]));
        if ops[j] is ShutDown {
            assert(shut_down_before(ops, i));
        } else {
            assert(shut_down_before(ops, i) ==> shut_down_before(ops, j)) by {
                if shut_down_before(ops, i) {
                    let k = choose|k: int| 0 <= k < i && #[trigger] ops[k] is ShutDown;
                    assert(k < j);
                }
            }
            assert(shut_down_before(ops, j) ==> shut_down_before(ops, i)) by {
                if shut_down_before(ops, j) {
                    let k = choose|k: int| 0 <= k < j && #[trigger] ops[k] is ShutDown;
                    assert(0 <= k < i);
                }
            }
        }
    } else {
        assert(!shut_down_before(ops, 0));
    }
}

/// Connections opened by the first `i` operations.
pub open spec fn opened_before(ops: Seq<StatsOp>, i: int) -> nat
    decreases i,
{
    if i <= 0 {
        0
    } else {
        opened_before(ops, i - 1) + if ops[i - 1] is ConnectionOpened { 1nat } else { 0nat }
    }
}

/// Connections completed by the first `i` operations.
pub open spec fn completed_before(ops: Seq<StatsOp>, i: int) -> nat
    decreases i,
{
    if i <= 0 {
        0
    } else {
        completed_before(ops, i - 1) + if ops[i - 1] is ConnectionCompleted { 1nat } else { 0nat }
    }
}

/// The connection counters count the connections opened and completed, while
/// they do not wrap round; so where each completion follows its own opening (as
/// `Session::start` and `Session::step` make it), no more connections succeed
/// than are opened.
pub proof fn lemma_successes_never_exceed_connections(states: Seq<StatsView>, ops: Seq<StatsOp>)
    requires
        valid_trace(states, ops),
        states[0].success_connections <= states[0].total_connections,
        states[0].total_connections + opened_before(ops, ops.len() as int) <= u64::MAX,
        forall|i: int| 0 <= i <= ops.len() ==> #[trigger] completed_before(ops, i) <= opened_before(ops, i),
    ensures
        forall|i: int| #![trigger states[i]] 0 <= i < states.len() ==> {
            &&& states[i].total_connections == states[0].total_connections + opened_before(ops, i)
            &&& states[i].success_connections == states[0].success_connections + completed_before(ops, i)
            &&& states[i].success_connections <= states[i].total_connections
        },
{
    assert forall|i: int| #![trigger states[i]] 0 <= i < states.len() implies {
        &&& states[i].total_connections == states[0].total_connections + opened_before(ops, i)
        &&& states[i].success_connections == states[0].success_connections + completed_before(ops, i)
        &&& states[i].success_connections <= states[i].total_connections
    } by {
        lemma_connection_counts_prefix(states, ops, i);
        assert(completed_before(ops, i) <= opened_before(ops, i));
    }
}

proof fn lemma_opened_grows(ops: Seq<StatsOp>, i: int, k: int)
    requires
        0 <= i <= k,
    ensures
        opened_before(ops, i) <= opened_before(ops, k),
        completed_before(ops, i) <= completed_before(ops, k),
    decreases k - i,
{
    if i < k {
        lemma_opened_grows(ops, i, k - 1);
    }
}

proof fn lemma_connection_counts_prefix(states: Seq<StatsView>, ops: Seq<StatsOp>, i: int)
    requires
        valid_trace(states, ops),
        states[0].success_connections <= states[0].total_connections,
        states[0].total_connections + opened_before(ops, ops.len() as int) <= u64::MAX,
        forall|i: int| 0 <= i <= ops.len() ==> #[trigger] completed_before(ops, i) <= opened_before(ops, i),
        0 <= i < states.len(),
    ensures
        states[i].total_connections == states[0].total_connections + opened_before(ops, i),
        states[i].success_connections == states[0].success_connections + completed_before(ops, i),
    decreases i,
{
    if i > 0 {
        let j = i - 1;
        lemma_connection_counts_prefix(states, ops, j);
        assert(states[j].op_step(ops[j], states[j + 1]));
        lemma_opened_grows(ops, i, ops.len() as int);
        assert(completed_before(ops, i) <= opened_before(ops, i));
    }
}

/// How many of the first `i` operations offer a latency with a sample number that
/// is a multiple of a hundred.
pub open spec fn sampled_before(ops: Seq<StatsOp>, i: int) -> nat
    decreases i,
{
    if i <= 0 {
        0
    } else {
        sampled_before(ops, i - 1) + if ops[i - 1] matches StatsOp::Latency { sample_count, .. }
            && sample_count % LATENCY_SAMPLE_EVERY == 0 { 1nat } else { 0nat }
    }
}

/// After the warmup, a run of latency reports within the histogram's room adds
/// to the histogram exactly the reports whose sample number is a multiple of a
/// hundred.
pub proof fn lemma_samples_count_the_hundredths(states: Seq<StatsView>, ops: Seq<StatsOp>)
    requires
        valid_trace(states, ops),
        !states[0].warmup,
        states[0].samples + ops.len() <= u64::MAX,
        forall|i: int| 0 <= i < ops.len() ==> (#[trigger] ops[i] matches StatsOp::Latency { latency_us, .. }
            && latency_us < states[0].latency_room),
    ensures
        forall|i: int| 0 <= i < states.len() ==> #[trigger] states[i].samples == states[0].samples + sampled_before(ops, i),
{
    assert forall|i: int| 0 <= i < states.len() implies #[trigger] states[i].samples == states[0].samples + sampled_before(ops, i) by {
        lemma_samples_prefix(states, ops, i);
    }
}

proof fn lemma_samples_prefix(states: Seq<StatsView>, ops: Seq<StatsOp>, i: int)
    requires
        valid_trace(states, ops),
        !states[0].warmup,
        states[0].samples + ops.len() <= u64::MAX,
        forall|i: int| 0 <= i < ops.len() ==> (#[trigger] ops[i] matches StatsOp::Latency { latency_us, .. }
            && latency_us < states[0].latency_room),
        0 <= i < states.len(),
    ensures
        states[i].samples == states[0].samples + sampled_before(ops, i),
        sampled_before(ops, i) <= i,
        !states[i].warmup,
        states[i].latency_room == states[0].latency_room,
    decreases i,
{
    if i > 0 {
        let j = i - 1;
        lemma_samples_prefix(states, ops, j);
        assert(states[j].op_step(ops[j], states[j + 1]));
        assert(ops[j] matches StatsOp::Latency { latency_us, .. } && latency_us < states[0].latency_room);
    }
}

proof fn lemma_numbered_rounds(ops: Seq<StatsOp>, i: int)
    requires
        0 <= i <= ops.len(),
        forall|k: int| 0 <= k < ops.len() ==> (#[trigger] ops[k] matches StatsOp::Latency { sample_count, .. }
            && sample_count == k + 1),
    ensures
        sampled_before(ops, i) == i / 100,
    decreases i,
{
    if i > 0 {
        lemma_numbered_rounds(ops, i - 1);
        let k = i - 1;
        assert(ops[k] matches StatsOp::Latency { sample_count, .. } && sample_count == k + 1);
        assert(i / 100 == (i - 1) / 100 + if i % 100 == 0 { 1int } else { 0int });
    }
}

/// One latency in a hundred: a connection whose exchanges are numbered `1, ...,
/// n` adds `n / 100` samples, and its first message (numbered 0, before them or
/// after) one more, after the warmup and within the histogram's room.
pub proof fn lemma_one_latency_in_a_hundred(states: Seq<StatsView>, ops: Seq<StatsOp>)
    requires
        valid_trace(states, ops),
        !states[0].warmup,
        ops.len() >= 1,
        states[0].samples + ops.len() <= u64::MAX,
        forall|i: int| 0 <= i < ops.len() - 1 ==> (#[trigger] ops[i] matches StatsOp::Latency { latency_us, sample_count }
            && sample_count == i + 1 && latency_us < states[0].latency_room),
        ops.last() matches StatsOp::Latency { latency_us, sample_count }
            && sample_count == 0 && latency_us < states[0].latency_room,
    ensures
        states[ops.len() - 1].samples == states[0].samples + (ops.len() - 1) / 100,
        states.last().samples == states[0].samples + (ops.len() - 1) / 100 + 1,
{
    let n = ops.len() - 1;
    assert forall|i: int| 0 <= i < ops.len() implies (#[trigger] ops[i] matches StatsOp::Latency { latency_us, .. }
        && latency_us < states[0].latency_room) by {
        if i < n {
            assert(ops[i] matches StatsOp::Latency { latency_us, sample_count }
                && sample_count == i + 1 && latency_us < states[0].latency_room);
        }
    }
    lemma_samples_count_the_hundredths(states, ops);
    let rounds = ops.take(n);
    assert forall|k: int| 0 <= k < rounds.len() implies (#[trigger] rounds[k] matches StatsOp::Latency { sample_count, .. }
        && sample_count == k + 1) by {
        assert(rounds[k] == ops[k]);
        assert(ops[k] matches StatsOp::Latency { latency_us, sample_count }
            && sample_count == k + 1 && latency_us < states[0].latency_room);
    }
    lemma_numbered_rounds(rounds, n);
    lemma_sampled_prefix_agrees(ops, rounds, n);
    assert(states[n].samples == states[0].samples + sampled_before(ops, n));
    assert(states[n + 1].samples == states[0].samples + sampled_before(ops, n + 1));
}

proof fn lemma_sampled_prefix_agrees(ops: Seq<StatsOp>, prefix: Seq<StatsOp>, i: int)
    requires
        0 <= i <= prefix.len() <= ops.len(),
        forall|k: int| 0 <= k < prefix.len() ==> prefix[k] == ops[k],
    ensures
        sampled_before(ops, i) == sampled_before(prefix, i),
    decreases i,
{
    if i > 0 {
        lemma_sampled_prefix_agrees(ops, prefix, i - 1);
        assert(prefix[i - 1] == ops[i - 1]);
    }
}

/// `x + y` wrapped round at 2^64 is their sum modulo 2^64.
proof fn lemma_wrapping_add_is_mod(x: u64, y: u64)
    ensures
        wrapping_add_u64(x, y) as int == (x + y) % 0x1_0000_0000_0000_0000,
{
    if x + y > u64::MAX {
        assert((x + y) % 0x1_0000_0000_0000_0000 == x + y - 0x1_0000_0000_0000_0000) by {
            vstd::arithmetic::div_mod::lemma_mod_add_multiples_vanish(
                x + y - 0x1_0000_0000_0000_0000,
                0x1_0000_0000_0000_0000,
            );
            vstd::arithmetic::div_mod::lemma_small_mod(
                (x + y - 0x1_0000_0000_0000_0000) as nat,
                0x1_0000_0000_0000_0000,
            );
        }
    } else {
        vstd::arithmetic::div_mod::lemma_small_mod((x + y) as nat, 0x1_0000_0000_0000_0000);
    }
}

/// Total bytes sent and received by a list of (sent, received) requests.
pub open spec fn sent_sum(requests: Seq<(u64, u64)>) -> int
    decreases requests.len(),
{
    if requests.len() == 0 { 0 } else { sent_sum(requests.drop_last()) + requests.last().0 }
}

pub open spec fn received_sum(requests: Seq<(u64, u64)>) -> int
    decreases requests.len(),
{
    if requests.len() == 0 { 0 } else { received_sum(requests.drop_last()) + requests.last().1 }
}

/// After the warmup, the request counters hold the number of requests and the
/// sums of their bytes, modulo 2^64: what they hold does not depend on the order
/// in which requests complete.
pub proof fn lemma_request_counters_are_sums(s: StatsView, requests: Seq<(u64, u64)>)
    requires
        !s.warmup,
    ensures
        after_requests(s, requests).total_requests as int
            == (s.total_requests + requests.len()) % 0x1_0000_0000_0000_0000,
        after_requests(s, requests).total_bytes_sent as int
            == (s.total_bytes_sent + sent_sum(requests)) % 0x1_0000_0000_0000_0000,
        after_requests(s, requests).total_bytes_received as int
            == (s.total_bytes_received + received_sum(requests)) % 0x1_0000_0000_0000_0000,
        !after_requests(s, requests).warmup,
    decreases requests.len(),
{
    let m: int = 0x1_0000_0000_0000_0000;
    if requests.len() == 0 {
        vstd::arithmetic::div_mod::lemma_small_mod(s.total_requests as nat, m as nat);
        vstd::arithmetic::div_mod::lemma_small_mod(s.total_bytes_sent as nat, m as nat);
        vstd::arithmetic::div_mod::lemma_small_mod(s.total_bytes_received as nat, m as nat);
    } else {
        let rest = requests.drop_last();
        let last = requests.last();
        let before = after_requests(s, rest);
        lemma_request_counters_are_sums(s, rest);
        lemma_wrapping_add_is_mod(before.total_requests, 1);
        lemma_wrapping_add_is_mod(before.total_bytes_sent, last.0);
        lemma_wrapping_add_is_mod(before.total_bytes_received, last.1);
        vstd::arithmetic::div_mod::lemma_add_mod_noop(s.total_requests + rest.len(), 1, m);
        vstd::arithmetic::div_mod::lemma_add_mod_noop(s.total_bytes_sent + sent_sum(rest), last.0 as int, m);
        vstd::arithmetic::div_mod::lemma_add_mod_noop(s.total_bytes_received + received_sum(rest), last.1 as int, m);
        vstd::arithmetic::div_mod::lemma_small_mod(1, m as nat);
        vstd::arithmetic::div_mod::lemma_small_mod(last.0 as nat, m as nat);
        vstd::arithmetic::div_mod::lemma_small_mod(last.1 as nat, m as nat);
        vstd::arithmetic::div_mod::lemma_small_mod(before.total_requests as nat, m as nat);
        vstd::arithmetic::div_mod::lemma_small_mod(before.total_bytes_sent as nat, m as nat);
        vstd::arithmetic::div_mod::lemma_small_mod(before.total_bytes_received as nat, m as nat);
    }
}

/// The histogram never starts resizing itself, whatever operations follow.
pub proof fn lemma_histogram_never_resizes(states: Seq<StatsView>, ops: Seq<StatsOp>)
    requires
        valid_trace(states, ops),
        !states[0].latency_auto_resize,
    ensures
        forall|i: int| 0 <= i < states.len() ==> !(#[trigger] states[i].latency_auto_resize),
{
    assert forall|i: int| 0 <= i < states.len() implies !(#[trigger] states[i].latency_auto_resize) by {
        lemma_no_resize_prefix(states, ops, i);
    }
}

proof fn lemma_no_resize_prefix(states: Seq<StatsView>, ops: Seq<StatsOp>, i: int)
    requires
        valid_trace(states, ops),
        !states[0].latency_auto_resize,
        0 <= i < states.len(),
    ensures
        !states[i].latency_auto_resize,
    decreases i,
{
    if i > 0 {
        lemma_no_resize_prefix(states, ops, i - 1);
        let j = i - 1;
        assert(states[j].op_step(ops[j], states[j + 1]));
    }
}


/// The connections (by the number of the session that owns each operation) that
/// the first `i` operations opened.
pub open spec fn opened_set(ops: Seq<StatsOp>, owner: Seq<nat>, i: int) -> Set<nat> {
    Set::new(|k: nat| exists|j: int| 0 <= j < i && owner[j] == k && #[trigger] ops[j] is ConnectionOpened)
}

/// The connections that the first `i` operations completed.
pub open spec fn completed_set(ops: Seq<StatsOp>, owner: Seq<nat>, i: int) -> Set<nat> {
    Set::new(|k: nat| exists|j: int| 0 <= j < i && owner[j] == k && #[trigger] ops[j] is ConnectionCompleted)
}

/// Each connection is opened once, and completed at most once, after it was
/// opened: what `Session::start`, `lemma_completion_only_on_close` and
/// `lemma_completes_at_most_once` give each session, whatever the interleaving.
pub open spec fn connections_well_nested(ops: Seq<StatsOp>, owner: Seq<nat>) -> bool {
    &&& ops.len() == owner.len()
    &&& forall|i: int, j: int| 0 <= j < i < ops.len() && owner[i] == owner[j]
        && #[trigger] ops[i] is ConnectionOpened ==> !(#[trigger] ops[j] is ConnectionOpened)
    &&& forall|i: int, j: int| 0 <= j < i < ops.len() && owner[i] == owner[j]
        && #[trigger] ops[i] is ConnectionCompleted ==> !(#[trigger] ops[j] is ConnectionCompleted)
    &&& forall|i: int| 0 <= i < ops.len() && #[trigger] ops[i] is ConnectionCompleted
        ==> exists|j: int| 0 <= j < i && owner[j] == owner[i] && #[trigger] ops[j] is ConnectionOpened
}

proof fn lemma_connection_sets(ops: Seq<StatsOp>, owner: Seq<nat>, i: int)
    requires
        connections_well_nested(ops, owner),
        0 <= i <= ops.len(),
    ensures
        opened_set(ops, owner, i).finite(),
        completed_set(ops, owner, i).finite(),
        opened_set(ops, owner, i).len() == opened_before(ops, i),
        completed_set(ops, owner, i).len() == completed_before(ops, i),
        completed_set(ops, owner, i).subset_of(opened_set(ops, owner, i)),
    decreases i,
{
    broadcast use vstd::set::group_set_axioms;
    if i == 0 {
        assert(opened_set(ops, owner, 0) =~= Set::<nat>::empty());
        assert(completed_set(ops, owner, 0) =~= Set::<nat>::empty());
    } else {
        let j = i - 1;
        lemma_connection_sets(ops, owner, j);
        let o = opened_set(ops, owner, j);
        let c = completed_set(ops, owner, j);
        let k = owner[j];
        if ops[j] is ConnectionOpened {
            assert(opened_set(ops, owner, i) =~= o.insert(k));
            assert(!o.contains(k)) by {
                if o.contains(k) {
                    let m = choose|m: int| 0 <= m < j && owner[m] == k && #[trigger] ops[m] is ConnectionOpened;
                    assert(!(ops[m] is ConnectionOpened));
                }
            }
            assert(completed_set(ops, owner, i) =~= c);
        } else if ops[j] is ConnectionCompleted {
            assert(completed_set(ops, owner, i) =~= c.insert(k));
            assert(!c.contains(k)) by {
                if c.contains(k) {
                    let m = choose|m: int| 0 <= m < j && owner[m] == k && #[trigger] ops[m] is ConnectionCompleted;
                    assert(!(ops[m] is ConnectionCompleted));
                }
            }
            assert(opened_set(ops, owner, i) =~= o);
            assert(o.contains(k)) by {
                let m = choose|m: int| 0 <= m < j && owner[m] == owner[j] && #[trigger] ops[m] is ConnectionOpened;
                assert(owner[m] == k && ops[m] is ConnectionOpened);
            }
        } else {
            assert(opened_set(ops, owner, i) =~= o);
            assert(completed_set(ops, owner, i) =~= c);
        }
    }
}

/// However the sessions of a run interleave, no more connections succeed than
/// are opened: when each connection is opened once and completed at most once
/// after its opening, and the counters do not wrap round, every state of the run
/// has `success_connections <= total_connections`.
pub proof fn lemma_sessions_never_succeed_more_than_opened(
    states: Seq<StatsView>,
    ops: Seq<StatsOp>,
    owner: Seq<nat>,
)
    requires
        valid_trace(states, ops),
        connections_well_nested(ops, owner),
        states[0].success_connections <= states[0].total_connections,
        states[0].total_connections + opened_before(ops, ops.len() as int) <= u64::MAX,
    ensures
        forall|i: int| 0 <= i < states.len() ==> (#[trigger] states[i]).success_connections
            <= states[i].total_connections,
{
    assert forall|i: int| 0 <= i <= ops.len() implies #[trigger] completed_before(ops, i) <= opened_before(ops, i) by {
        lemma_connection_sets(ops, owner, i);
        vstd::set_lib::lemma_len_subset(completed_set(ops, owner, i), opened_set(ops, owner, i));
    }
    lemma_successes_never_exceed_connections(states, ops);
}

} // verus!
