use tcpkali2::histogram::Refusal;
use tcpkali2::stats::{QpsSample, Stats, LATENCY_HIGH_US, LATENCY_ROOM_US};

#[test]
fn new_stats_start_warming_up_and_empty() {
    let s = Stats::new(1_000);
    assert!(s.is_warmup());
    assert!(!s.is_shutting_down());
    assert_eq!(s.total_connections, 0);
    assert_eq!(s.success_connections, 0);
    assert_eq!(s.total_requests, 0);
    assert_eq!(s.total_bytes_sent, 0);
    assert_eq!(s.total_bytes_received, 0);
    assert_eq!(s.connection_errors, 0);
    assert_eq!(s.last_print_time, 1_000);
    assert_eq!(s.last_print_count, 0);
    assert_eq!(s.latency_histogram.inner.len(), 0);
    assert_eq!(s.latency_histogram.inner.high(), LATENCY_HIGH_US);
    assert_eq!(s.latency_histogram.inner.low(), 1);
    assert_eq!(s.latency_histogram.inner.sigfig(), 3);
    assert!(!s.latency_histogram.inner.is_auto_resize());
}

#[test]
fn requests_during_warmup_are_not_counted() {
    let mut s = Stats::new(0);
    s.record_request(10, 20);
    assert_eq!(s.total_requests, 0);
    assert_eq!(s.total_bytes_sent, 0);
    assert_eq!(s.total_bytes_received, 0);
}

#[test]
fn requests_after_warmup_are_counted_with_bytes() {
    let mut s = Stats::new(0);
    s.end_warmup(5);
    s.record_request(10, 20);
    s.record_request(1, 2);
    assert_eq!(s.total_requests, 2);
    assert_eq!(s.total_bytes_sent, 11);
    assert_eq!(s.total_bytes_received, 22);
}

#[test]
fn request_counter_wraps_round() {
    let mut s = Stats::new(0);
    s.end_warmup(0);
    s.total_requests = u64::MAX;
    s.total_bytes_sent = u64::MAX;
    s.record_request(2, 0);
    assert_eq!(s.total_requests, 0);
    assert_eq!(s.total_bytes_sent, 1);
}

#[test]
fn latency_is_sampled_every_hundredth_exchange() {
    let mut s = Stats::new(0);
    s.end_warmup(0);
    assert_eq!(s.record_latency(500, 1), None);
    assert_eq!(s.record_latency(500, 99), None);
    assert_eq!(s.latency_histogram.inner.len(), 0);
    assert_eq!(s.record_latency(500, 100), None);
    assert_eq!(s.record_latency(700, 0), None);
    assert_eq!(s.latency_histogram.inner.len(), 2);
    assert_eq!(s.latency_histogram.inner.max(), 700);
}

#[test]
fn latency_during_warmup_is_not_recorded() {
    let mut s = Stats::new(0);
    assert_eq!(s.record_latency(500, 0), None);
    assert_eq!(s.latency_histogram.inner.len(), 0);
}

#[test]
fn latency_out_of_range_is_reported() {
    let mut s = Stats::new(0);
    s.end_warmup(0);
    assert_eq!(s.record_latency(u64::MAX, 0), Some(Refusal::ValueOutOfRange));
    assert_eq!(s.latency_histogram.inner.len(), 0);
}

#[test]
fn latency_at_the_limit_is_recorded() {
    let mut s = Stats::new(0);
    s.end_warmup(0);
    assert_eq!(s.record_latency(LATENCY_HIGH_US, 0), None);
    assert_eq!(s.latency_histogram.inner.len(), 1);
}

#[test]
fn latency_refused_while_shutting_down_is_not_reported() {
    let mut s = Stats::new(0);
    s.end_warmup(0);
    s.set_shutting_down();
    assert_eq!(s.record_latency(u64::MAX, 0), None);
}

#[test]
fn connection_errors_are_counted_during_warmup() {
    let mut s = Stats::new(0);
    s.record_connection_error();
    s.record_connection_error();
    assert_eq!(s.connection_errors, 2);
}

#[test]
fn end_warmup_resets_counters_and_histogram() {
    let mut s = Stats::new(0);
    s.end_warmup(0);
    s.record_request(5, 5);
    s.record_latency(100, 0);
    s.record_connection_error();
    s.total_connections = 3;
    s.end_warmup(42);
    assert!(!s.is_warmup());
    assert_eq!(s.total_requests, 0);
    assert_eq!(s.total_bytes_sent, 0);
    assert_eq!(s.total_bytes_received, 0);
    assert_eq!(s.latency_histogram.inner.len(), 0);
    assert_eq!(s.last_print_count, 0);
    assert_eq!(s.last_print_time, 42);
    assert_eq!(s.connection_errors, 1);
    assert_eq!(s.total_connections, 3);
}

#[test]
fn qps_reading_counts_requests_since_last_reading() {
    let mut s = Stats::new(0);
    s.end_warmup(1_000);
    for _ in 0..7 {
        s.record_request(1, 1);
    }
    assert_eq!(s.get_qps(1_500), QpsSample { requests: 7, elapsed_ms: 500 });
    assert_eq!(s.last_print_time, 1_500);
    assert_eq!(s.last_print_count, 7);
    for _ in 0..3 {
        s.record_request(1, 1);
    }
    assert_eq!(s.get_qps(2_500), QpsSample { requests: 3, elapsed_ms: 1_000 });
    assert_eq!(s.get_qps(2_500), QpsSample { requests: 0, elapsed_ms: 0 });
}

#[test]
fn shutting_down_stays_set() {
    let mut s = Stats::new(0);
    s.set_shutting_down();
    s.end_warmup(1);
    s.record_request(1, 1);
    s.record_connection_error();
    let _ = s.get_qps(2);
    assert!(s.is_shutting_down());
}

#[test]
fn warmup_never_returns() {
    let mut s = Stats::new(0);
    s.end_warmup(1);
    s.end_warmup(2);
    s.set_shutting_down();
    s.record_request(1, 1);
    assert!(!s.is_warmup());
}

#[test]
fn warmup_traffic_is_forgotten() {
    let mut a = Stats::new(0);
    let mut b = Stats::new(0);
    a.record_request(100, 100);
    a.record_latency(5, 0);
    a.end_warmup(9);
    b.end_warmup(9);
    assert_eq!(a.total_requests, b.total_requests);
    assert_eq!(a.total_bytes_sent, b.total_bytes_sent);
    assert_eq!(a.latency_histogram.inner.len(), b.latency_histogram.inner.len());
    assert_eq!(a.last_print_time, b.last_print_time);
}

#[test]
fn recorded_latency_is_counted_under_its_value() {
    let mut s = Stats::new(0);
    s.end_warmup(0);
    assert_eq!(s.record_latency(1_234, 200), None);
    assert_eq!(s.latency_histogram.inner.count_at(1_234), 1);
    assert_eq!(s.latency_histogram.inner.count_at(617), 0);
    // Above 2048 values share counters with their equivalents.
    assert_eq!(s.record_latency(5_000_001, 0), None);
    let low = s.latency_histogram.inner.lowest_equivalent(5_000_001);
    assert_eq!(s.latency_histogram.inner.count_at(low), 1);
}

#[test]
fn room_of_the_histogram_ends_above_its_bound() {
    let mut s = Stats::new(0);
    s.end_warmup(0);
    assert_eq!(s.record_latency(LATENCY_HIGH_US + 1, 0), None);
    assert_eq!(s.record_latency(LATENCY_ROOM_US - 1, 0), None);
    assert_eq!(s.latency_histogram.inner.len(), 2);
    assert_eq!(s.record_latency(LATENCY_ROOM_US, 0), Some(Refusal::ValueOutOfRange));
    assert_eq!(s.record_latency(1_000_000_000, 0), Some(Refusal::ValueOutOfRange));
    assert_eq!(s.latency_histogram.inner.len(), 2);
    assert_eq!(s.total_requests, 0);
}

#[test]
fn second_end_warmup_changes_only_the_reading_time() {
    let mut s = Stats::new(0);
    s.end_warmup(1);
    s.record_connection_error();
    s.end_warmup(2);
    assert_eq!(s.last_print_time, 2);
    assert_eq!(s.connection_errors, 1);
    assert_eq!(s.latency_histogram.inner.len(), 0);
    assert_eq!(s.latency_histogram.inner.high(), LATENCY_HIGH_US);
}

#[test]
fn request_totals_do_not_depend_on_order() {
    let mut a = Stats::new(0);
    let mut b = Stats::new(0);
    a.end_warmup(0);
    b.end_warmup(0);
    a.record_request(3, 10);
    a.record_request(7, 1);
    b.record_request(7, 1);
    b.record_request(3, 10);
    assert_eq!(a.total_requests, b.total_requests);
    assert_eq!(a.total_bytes_sent, 10);
    assert_eq!(b.total_bytes_sent, 10);
    assert_eq!(a.total_bytes_received, b.total_bytes_received);
}

#[test]
fn one_latency_in_a_hundred_is_sampled() {
    let mut s = Stats::new(0);
    s.end_warmup(0);
    for n in 1..=250usize {
        assert_eq!(s.record_latency(10, n), None);
    }
    assert_eq!(s.latency_histogram.inner.len(), 2);
}

#[test]
fn warmup_lasts_until_it_is_ended() {
    let mut s = Stats::new(0);
    s.record_request(1, 1);
    s.set_shutting_down();
    assert!(s.is_warmup());
    s.end_warmup(1);
    assert!(!s.is_warmup());
}

#[test]
fn largest_and_smallest_latencies_follow_the_samples() {
    let mut s = Stats::new(0);
    assert_eq!(s.latency_histogram.inner.max(), 0);
    assert_eq!(s.latency_histogram.inner.min_nz(), u64::MAX);
    s.end_warmup(0);
    s.record_latency(300, 0);
    s.record_latency(20, 0);
    s.record_latency(0, 0);
    assert_eq!(s.latency_histogram.inner.max(), 300);
    assert_eq!(s.latency_histogram.inner.min_nz(), 20);
    s.end_warmup(1);
    assert_eq!(s.latency_histogram.inner.max(), 0);
    assert_eq!(s.latency_histogram.inner.min_nz(), u64::MAX);
}
