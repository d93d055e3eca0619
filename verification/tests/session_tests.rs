use tcpkali2::config::{parse_config, CommandArgs, Config};
use tcpkali2::histogram::Refusal;
use tcpkali2::send_log::SendLog;
use tcpkali2::session::{
    Abort, Action, Event, Failure, Outcome, Phase, PipelineReader, Reply, Session, Transport,
};
use tcpkali2::stats::Stats;

fn config(first: Option<&[u8]>, message: &[u8]) -> Config {
    parse_config(CommandArgs {
        duration: 15_000_000_000,
        message_size: 4,
        quiet: false,
        nagle: false,
        pipeline: false,
        connections: 1,
        connect_rate: 100,
        connect_timeout: 1_000_000_000,
        channel_lifetime: None,
        first_message_arg: first.map(|m| m.to_vec()),
        first_message_file: None,
        message_arg: Some(message.to_vec()),
        message_file: None,
        unescape: false,
        payload_seed: 0,
        message_rate: None,
        websocket: false,
    })
}

fn running_stats() -> Stats {
    let mut s = Stats::new(0);
    s.end_warmup(0);
    s
}

#[test]
fn tcp_pingpong_round_trip() {
    let c = config(None, b"ping");
    let mut stats = running_stats();
    let mut log = SendLog::new();
    let mut s = Session::new(Transport::Tcp, false);
    let st = s.start(&mut stats);
    assert_eq!(st.action, Action::Connect);
    assert_eq!(stats.total_connections, 1);

    let st = s.step(&c, &mut stats, &mut log, Event::Connected, 1_000);
    assert_eq!(st.action, Action::Send);
    assert_eq!(s.start_time, 1_000);
    let st = s.step(&c, &mut stats, &mut log, Event::Sent, 2_000);
    assert_eq!(st.action, Action::Receive);
    assert_eq!(s.counter, 1);
    let st = s.step(&c, &mut stats, &mut log, Event::Received(Reply::Data(4)), 9_000);
    assert_eq!(st.action, Action::Send);
    assert_eq!(st.report, None);
    assert_eq!(stats.total_requests, 1);
    assert_eq!(stats.total_bytes_sent, 4);
    assert_eq!(stats.total_bytes_received, 4);
    // Sample 1 is not a multiple of 100: no latency taken.
    assert_eq!(stats.latency_histogram.inner.len(), 0);
    assert_eq!(log.pop(), None);

    let st = s.step(&c, &mut stats, &mut log, Event::ShutdownSignalled, 10_000);
    assert_eq!(st.action, Action::Close);
    let st = s.step(&c, &mut stats, &mut log, Event::Closed, 11_000);
    assert_eq!(st.action, Action::Finish(Outcome::Completed));
    assert_eq!(stats.success_connections, 1);
    assert_eq!(stats.connection_errors, 0);
}

#[test]
fn hundredth_exchange_records_latency_and_yields() {
    let c = config(None, b"ping");
    let mut stats = running_stats();
    let mut log = SendLog::new();
    let mut s = Session::new(Transport::Tcp, false);
    s.start(&mut stats);
    s.step(&c, &mut stats, &mut log, Event::Connected, 0);
    s.counter = 99;
    s.step(&c, &mut stats, &mut log, Event::Sent, 1_000);
    assert_eq!(s.counter, 100);
    let st = s.step(&c, &mut stats, &mut log, Event::Received(Reply::Data(4)), 251_000);
    assert_eq!(st.action, Action::Yield);
    assert_eq!(stats.latency_histogram.inner.len(), 1);
    // The send time is taken when the loop came round (at 0), before the write:
    // 251 000 ns is 251 us.
    assert_eq!(stats.latency_histogram.inner.count_at(251), 1);
    let st = s.step(&c, &mut stats, &mut log, Event::Yielded, 252_000);
    assert_eq!(st.action, Action::Send);
}

#[test]
fn tcp_short_read_goes_back_to_sending_without_counting() {
    let c = config(None, b"ping");
    let mut stats = running_stats();
    let mut log = SendLog::new();
    let mut s = Session::new(Transport::Tcp, false);
    s.start(&mut stats);
    s.step(&c, &mut stats, &mut log, Event::Connected, 0);
    s.step(&c, &mut stats, &mut log, Event::Sent, 1);
    let st = s.step(&c, &mut stats, &mut log, Event::Received(Reply::Data(2)), 2);
    assert_eq!(st.action, Action::Send);
    assert_eq!(st.report, None);
    assert_eq!(stats.total_requests, 0);
    assert_eq!(stats.connection_errors, 0);
}

#[test]
fn read_error_is_reported_and_counted_then_the_loop_goes_on() {
    let c = config(None, b"ping");
    let mut stats = running_stats();
    let mut log = SendLog::new();
    let mut s = Session::new(Transport::Tcp, false);
    s.start(&mut stats);
    s.step(&c, &mut stats, &mut log, Event::Connected, 0);
    s.step(&c, &mut stats, &mut log, Event::Sent, 1);
    let st = s.step(&c, &mut stats, &mut log, Event::Received(Reply::Failed), 2);
    assert_eq!(st.report, Some(Failure::ReceiveFailed));
    assert_eq!(st.action, Action::Send);
    assert_eq!(stats.connection_errors, 1);
}

#[test]
fn write_error_is_reported_and_counted_then_the_loop_goes_on() {
    let c = config(None, b"ping");
    let mut stats = running_stats();
    let mut log = SendLog::new();
    let mut s = Session::new(Transport::Tcp, false);
    s.start(&mut stats);
    s.step(&c, &mut stats, &mut log, Event::Connected, 0);
    let st = s.step(&c, &mut stats, &mut log, Event::SendFailed, 1);
    assert_eq!(st.report, Some(Failure::SendFailed));
    assert_eq!(st.action, Action::Send);
    assert_eq!(s.counter, 0);
    assert_eq!(stats.connection_errors, 1);
}

#[test]
fn connect_failure_stops_and_counts_one_error() {
    let c = config(None, b"ping");
    let mut stats = running_stats();
    let mut log = SendLog::new();
    let mut s = Session::new(Transport::Tcp, false);
    s.start(&mut stats);
    let st = s.step(&c, &mut stats, &mut log, Event::ConnectFailed, 0);
    assert_eq!(st.action, Action::Finish(Outcome::Stopped));
    assert_eq!(st.report, Some(Failure::ConnectFailed));
    assert_eq!(stats.connection_errors, 1);
    assert_eq!(stats.success_connections, 0);
    // A finished session stays finished.
    let st = s.step(&c, &mut stats, &mut log, Event::Connected, 1);
    assert_eq!(st.action, Action::Finish(Outcome::Stopped));
    assert_eq!(stats.connection_errors, 1);
}

#[test]
fn connect_timeout_is_reported_unless_quiet_or_shutting_down() {
    let mut c = config(None, b"ping");
    let mut stats = running_stats();
    let mut log = SendLog::new();
    let mut s = Session::new(Transport::WebSocket, false);
    s.start(&mut stats);
    let st = s.step(&c, &mut stats, &mut log, Event::ConnectTimedOut, 0);
    assert_eq!(st.report, Some(Failure::ConnectTimedOut));

    c.quiet = true;
    let mut s = Session::new(Transport::WebSocket, false);
    s.start(&mut stats);
    let st = s.step(&c, &mut stats, &mut log, Event::ConnectTimedOut, 0);
    assert_eq!(st.report, None);
    assert_eq!(st.action, Action::Finish(Outcome::Stopped));

    c.quiet = false;
    stats.set_shutting_down();
    let mut s = Session::new(Transport::WebSocket, false);
    s.start(&mut stats);
    let st = s.step(&c, &mut stats, &mut log, Event::ConnectTimedOut, 0);
    assert_eq!(st.report, None);
    assert_eq!(stats.connection_errors, 3);
    assert_eq!(stats.total_connections, 3);
}

#[test]
fn nagle_failure_fails_the_session_without_counting() {
    let mut c = config(None, b"ping");
    c.nagle = true;
    let mut stats = running_stats();
    let mut log = SendLog::new();
    let mut s = Session::new(Transport::Tcp, false);
    s.start(&mut stats);
    let st = s.step(&c, &mut stats, &mut log, Event::Connected, 0);
    assert_eq!(st.action, Action::SetNodelay);
    let st = s.step(&c, &mut stats, &mut log, Event::NodelayFailed, 0);
    assert_eq!(st.action, Action::Finish(Outcome::Failed));
    assert_eq!(st.report, None);
    assert_eq!(stats.connection_errors, 0);
    assert_eq!(stats.success_connections, 0);
}

#[test]
fn websocket_with_nagle_connects_straight_on() {
    let mut c = config(None, b"ping");
    c.nagle = true;
    let mut stats = running_stats();
    let mut log = SendLog::new();
    let mut s = Session::new(Transport::WebSocket, false);
    s.start(&mut stats);
    let st = s.step(&c, &mut stats, &mut log, Event::Connected, 0);
    assert_eq!(st.action, Action::Send);
}

#[test]
fn first_message_exchange_is_counted_as_sample_zero() {
    let c = config(Some(b"hello"), b"ping");
    let mut stats = running_stats();
    let mut log = SendLog::new();
    let mut s = Session::new(Transport::Tcp, false);
    s.start(&mut stats);
    let st = s.step(&c, &mut stats, &mut log, Event::Connected, 1_000);
    assert_eq!(st.action, Action::SendFirst);
    let st = s.step(&c, &mut stats, &mut log, Event::Sent, 2_000);
    assert_eq!(st.action, Action::ReceiveFirst);
    let st = s.step(&c, &mut stats, &mut log, Event::Received(Reply::Data(5)), 6_000);
    assert_eq!(st.action, Action::Send);
    assert_eq!(stats.total_requests, 1);
    assert_eq!(stats.total_bytes_sent, 5);
    assert_eq!(stats.total_bytes_received, 5);
    assert_eq!(stats.latency_histogram.inner.len(), 1);
    // 5 000 ns since the first message was sent at 1 000.
    assert_eq!(stats.latency_histogram.inner.max(), 5);
    assert_eq!(s.start_time, 6_000);
}

#[test]
fn first_message_send_failure_stops() {
    let c = config(Some(b"hello"), b"ping");
    let mut stats = running_stats();
    let mut log = SendLog::new();
    let mut s = Session::new(Transport::Tcp, false);
    s.start(&mut stats);
    s.step(&c, &mut stats, &mut log, Event::Connected, 0);
    let st = s.step(&c, &mut stats, &mut log, Event::SendFailed, 0);
    assert_eq!(st.report, Some(Failure::FirstSendFailed));
    assert_eq!(st.action, Action::Finish(Outcome::Stopped));
    assert_eq!(stats.connection_errors, 1);
}

#[test]
fn websocket_first_reply_kinds() {
    let c = config(Some(b"hello"), b"ping");
    for (reply, failure) in [
        (Reply::Failed, Some(Failure::FirstReceiveFailed)),
        (Reply::Other, Some(Failure::FirstReplyUnexpected)),
        (Reply::Closed, Some(Failure::FirstReplyUnexpected)),
        (Reply::Data(3), None),
    ] {
        let mut stats = running_stats();
        let mut log = SendLog::new();
        let mut s = Session::new(Transport::WebSocket, false);
        s.start(&mut stats);
        s.step(&c, &mut stats, &mut log, Event::Connected, 0);
        s.step(&c, &mut stats, &mut log, Event::Sent, 0);
        let st = s.step(&c, &mut stats, &mut log, Event::Received(reply), 0);
        assert_eq!(st.report, failure);
        if failure.is_some() {
            assert_eq!(st.action, Action::Finish(Outcome::Stopped));
            assert_eq!(stats.connection_errors, 1);
        } else {
            assert_eq!(st.action, Action::Send);
            assert_eq!(stats.total_bytes_sent, 5);
            assert_eq!(stats.total_bytes_received, 3);
        }
    }
}

#[test]
fn websocket_non_binary_reply_is_skipped() {
    let c = config(None, b"ping");
    let mut stats = running_stats();
    let mut log = SendLog::new();
    let mut s = Session::new(Transport::WebSocket, false);
    s.start(&mut stats);
    s.step(&c, &mut stats, &mut log, Event::Connected, 0);
    s.step(&c, &mut stats, &mut log, Event::Sent, 0);
    let st = s.step(&c, &mut stats, &mut log, Event::Received(Reply::Other), 0);
    assert_eq!(st.action, Action::Send);
    assert_eq!(st.report, None);
    assert_eq!(stats.total_requests, 0);
    s.step(&c, &mut stats, &mut log, Event::Sent, 0);
    let st = s.step(&c, &mut stats, &mut log, Event::Received(Reply::Data(9)), 0);
    assert_eq!(st.action, Action::Send);
    assert_eq!(stats.total_bytes_sent, 4);
    assert_eq!(stats.total_bytes_received, 9);
}

#[test]
fn message_rate_paces_with_the_rest_of_the_interval() {
    let mut c = config(None, b"ping");
    c.message_rate = Some(1_000);
    let mut stats = running_stats();
    let mut log = SendLog::new();
    let mut s = Session::new(Transport::Tcp, false);
    s.start(&mut stats);
    s.step(&c, &mut stats, &mut log, Event::Connected, 0);
    s.step(&c, &mut stats, &mut log, Event::Sent, 10_000);
    let st = s.step(&c, &mut stats, &mut log, Event::Received(Reply::Data(4)), 310_000);
    // 1 000 per second is one every 1 000 000 ns; the send began at 0, when the
    // loop came round, so 310 000 ns have passed.
    assert_eq!(st.action, Action::Sleep(690_000));
    let st = s.step(&c, &mut stats, &mut log, Event::Slept, 1_010_000);
    assert_eq!(st.action, Action::Send);
}

#[test]
fn late_reply_needs_no_pacing() {
    let mut c = config(None, b"ping");
    c.message_rate = Some(1_000);
    let mut stats = running_stats();
    let mut log = SendLog::new();
    let mut s = Session::new(Transport::Tcp, false);
    s.start(&mut stats);
    s.step(&c, &mut stats, &mut log, Event::Connected, 0);
    s.step(&c, &mut stats, &mut log, Event::Sent, 0);
    let st = s.step(&c, &mut stats, &mut log, Event::Received(Reply::Data(4)), 2_000_000);
    assert_eq!(st.action, Action::Send);
}

#[test]
fn channel_lifetime_ends_the_loop() {
    let mut c = config(None, b"ping");
    c.channel_lifetime = Some(1_000);
    let mut stats = running_stats();
    let mut log = SendLog::new();
    let mut s = Session::new(Transport::Tcp, false);
    s.start(&mut stats);
    s.step(&c, &mut stats, &mut log, Event::Connected, 100);
    s.step(&c, &mut stats, &mut log, Event::Sent, 500);
    let st = s.step(&c, &mut stats, &mut log, Event::Received(Reply::Data(4)), 1_100);
    assert_eq!(st.action, Action::Close);
    let st = s.step(&c, &mut stats, &mut log, Event::Closed, 1_200);
    assert_eq!(st.action, Action::Finish(Outcome::Completed));
    assert_eq!(stats.success_connections, 1);
}

#[test]
fn shutting_down_idles_instead_of_sending() {
    let c = config(None, b"ping");
    let mut stats = running_stats();
    let mut log = SendLog::new();
    let mut s = Session::new(Transport::Tcp, false);
    s.start(&mut stats);
    stats.set_shutting_down();
    let st = s.step(&c, &mut stats, &mut log, Event::Connected, 0);
    assert_eq!(st.action, Action::Idle);
    let st = s.step(&c, &mut stats, &mut log, Event::Yielded, 1);
    assert_eq!(st.action, Action::Idle);
    let st = s.step(&c, &mut stats, &mut log, Event::ShutdownSignalled, 2);
    assert_eq!(st.action, Action::Close);
}

#[test]
fn event_that_does_not_fit_repeats_the_action() {
    let c = config(None, b"ping");
    let mut stats = running_stats();
    let mut log = SendLog::new();
    let mut s = Session::new(Transport::Tcp, false);
    s.start(&mut stats);
    let before = s;
    let st = s.step(&c, &mut stats, &mut log, Event::Slept, 0);
    assert_eq!(st.action, Action::Connect);
    assert_eq!(s, before);
    assert_eq!(s.phase, Phase::Connecting);
}

#[test]
fn pipeline_logs_send_times_and_the_reader_matches_them_in_order() {
    let mut c = config(None, b"ping");
    c.pipeline = true;
    let mut stats = running_stats();
    let mut log = SendLog::new();
    let mut s = Session::new(Transport::Tcp, true);
    s.start(&mut stats);
    let st = s.step(&c, &mut stats, &mut log, Event::Connected, 0);
    assert_eq!(st.action, Action::StartReader);
    let st = s.step(&c, &mut stats, &mut log, Event::ReaderStarted, 1_000);
    assert_eq!(st.action, Action::Send);
    let st = s.step(&c, &mut stats, &mut log, Event::Sent, 1_500);
    assert_eq!(st.action, Action::Send);
    let st = s.step(&c, &mut stats, &mut log, Event::Sent, 3_000);
    assert_eq!(st.action, Action::Send);
    assert_eq!(s.counter, 2);

    let mut r = PipelineReader::new(Transport::Tcp, &c);
    assert_eq!(r.expected_len, 4);
    let rs = r.on_reply(&c, &mut stats, &mut log, Reply::Data(4), 5_000);
    assert!(rs.keep_reading);
    assert_eq!(r.counter, 1);
    assert_eq!(stats.total_requests, 1);
    let rs = r.on_reply(&c, &mut stats, &mut log, Reply::Data(4), 6_000);
    assert!(rs.keep_reading);
    assert_eq!(stats.total_requests, 2);
    // The third send time (at 3 000) is the one left.
    assert_eq!(log.pop(), Some(3_000));
    assert_eq!(log.pop(), None);
    // A reply with no send time waiting is read but not counted.
    let rs = r.on_reply(&c, &mut stats, &mut log, Reply::Data(4), 7_000);
    assert!(rs.keep_reading);
    assert_eq!(r.counter, 3);
    assert_eq!(stats.total_requests, 2);
}

#[test]
fn pipeline_reader_latency_uses_the_oldest_send_time() {
    let c = config(None, b"ping");
    let mut stats = running_stats();
    let mut log = SendLog::new();
    log.push(1_000_000);
    log.push(2_000_000);
    let mut r = PipelineReader::new(Transport::Tcp, &c);
    r.counter = 99;
    r.on_reply(&c, &mut stats, &mut log, Reply::Data(4), 3_000_000);
    assert_eq!(stats.latency_histogram.inner.len(), 1);
    assert_eq!(stats.latency_histogram.inner.max(), 2_000);
    assert_eq!(log.pop(), Some(2_000_000));
}

#[test]
fn tcp_pipeline_reader_stops_on_short_read_and_on_error() {
    let c = config(None, b"ping");
    let mut stats = running_stats();
    let mut log = SendLog::new();
    let mut r = PipelineReader::new(Transport::Tcp, &c);
    let rs = r.on_reply(&c, &mut stats, &mut log, Reply::Data(1), 0);
    assert!(!rs.keep_reading);
    assert_eq!(rs.report, None);
    assert_eq!(stats.connection_errors, 0);
    let rs = r.on_reply(&c, &mut stats, &mut log, Reply::Failed, 0);
    assert!(!rs.keep_reading);
    assert_eq!(stats.connection_errors, 0);

    let mut r = PipelineReader::new(Transport::Tcp, &c);
    let rs = r.on_reply(&c, &mut stats, &mut log, Reply::Failed, 0);
    assert!(!rs.keep_reading);
    assert_eq!(rs.report, Some(Failure::ReceiveFailed));
    assert_eq!(stats.connection_errors, 1);
}

#[test]
fn websocket_pipeline_reader_counts_the_message_length_as_sent() {
    let mut c = config(None, b"ping");
    c.message_size = 128;
    let mut stats = running_stats();
    let mut log = SendLog::new();
    log.push(0);
    let mut r = PipelineReader::new(Transport::WebSocket, &c);
    assert_eq!(r.sent_len, 4);
    let rs = r.on_reply(&c, &mut stats, &mut log, Reply::Other, 0);
    assert!(rs.keep_reading);
    let rs = r.on_reply(&c, &mut stats, &mut log, Reply::Data(9), 0);
    assert!(rs.keep_reading);
    assert_eq!(stats.total_bytes_sent, 4);
    assert_eq!(stats.total_bytes_received, 9);
    let rs = r.on_reply(&c, &mut stats, &mut log, Reply::Closed, 0);
    assert!(!rs.keep_reading);
    assert_eq!(rs.report, None);
}

#[test]
fn a_session_completes_at_most_once() {
    let c = config(None, b"ping");
    let mut stats = running_stats();
    let mut log = SendLog::new();
    let mut s = Session::new(Transport::Tcp, false);
    s.start(&mut stats);
    s.step(&c, &mut stats, &mut log, Event::Connected, 0);
    s.step(&c, &mut stats, &mut log, Event::ShutdownSignalled, 0);
    let st = s.step(&c, &mut stats, &mut log, Event::Closed, 0);
    assert_eq!(st.action, Action::Finish(Outcome::Completed));
    let st = s.step(&c, &mut stats, &mut log, Event::Closed, 0);
    assert_eq!(st.action, Action::Finish(Outcome::Completed));
    assert_eq!(stats.success_connections, 1);
    assert_eq!(stats.total_connections, 1);
}

#[test]
fn connect_failure_without_a_message_is_counted() {
    let mut c = config(None, b"ping");
    c.message = None;
    c.message_rate = Some(0);
    let mut stats = running_stats();
    let mut log = SendLog::new();
    let mut s = Session::new(Transport::Tcp, true);
    s.start(&mut stats);
    let st = s.step(&c, &mut stats, &mut log, Event::ConnectFailed, 0);
    assert_eq!(st.action, Action::Finish(Outcome::Stopped));
    assert_eq!(stats.connection_errors, 1);
}

#[test]
fn no_message_aborts_where_the_loop_would_begin() {
    let mut c = config(Some(b"hi"), b"ping");
    c.message = None;
    let mut stats = running_stats();
    let mut log = SendLog::new();
    let mut s = Session::new(Transport::Tcp, false);
    s.start(&mut stats);
    s.step(&c, &mut stats, &mut log, Event::Connected, 0);
    s.step(&c, &mut stats, &mut log, Event::Sent, 0);
    let st = s.step(&c, &mut stats, &mut log, Event::Received(Reply::Data(2)), 0);
    assert_eq!(st.action, Action::Finish(Outcome::Aborted(Abort::NoMessage)));
    // The first exchange was counted before.
    assert_eq!(stats.total_requests, 1);

    // A pipelined WebSocket connection starts its reader first.
    let mut s = Session::new(Transport::WebSocket, true);
    s.start(&mut stats);
    s.step(&c, &mut stats, &mut log, Event::Connected, 0);
    s.step(&c, &mut stats, &mut log, Event::Sent, 0);
    let st = s.step(&c, &mut stats, &mut log, Event::Received(Reply::Data(2)), 0);
    assert_eq!(st.action, Action::StartReader);
    let st = s.step(&c, &mut stats, &mut log, Event::ReaderStarted, 0);
    assert_eq!(st.action, Action::Finish(Outcome::Aborted(Abort::NoMessage)));
}

#[test]
fn zero_rate_aborts_at_the_first_pacing() {
    let mut c = config(None, b"ping");
    c.message_rate = Some(0);
    let mut stats = running_stats();
    let mut log = SendLog::new();
    let mut s = Session::new(Transport::Tcp, false);
    s.start(&mut stats);
    let st = s.step(&c, &mut stats, &mut log, Event::Connected, 0);
    assert_eq!(st.action, Action::Send);
    s.step(&c, &mut stats, &mut log, Event::Sent, 0);
    let st = s.step(&c, &mut stats, &mut log, Event::Received(Reply::Data(4)), 0);
    assert_eq!(st.action, Action::Finish(Outcome::Aborted(Abort::ZeroRate)));
    assert_eq!(stats.total_requests, 1);
}

#[test]
fn pacing_interval_is_rounded_to_the_nearest_nanosecond() {
    let mut c = config(None, b"ping");
    c.message_rate = Some(7);
    let mut stats = running_stats();
    let mut log = SendLog::new();
    let mut s = Session::new(Transport::Tcp, false);
    s.start(&mut stats);
    s.step(&c, &mut stats, &mut log, Event::Connected, 0);
    s.step(&c, &mut stats, &mut log, Event::Sent, 0);
    let st = s.step(&c, &mut stats, &mut log, Event::Received(Reply::Data(4)), 0);
    // 1e9 / 7 = 142 857 142.86 ns.
    assert_eq!(st.action, Action::Sleep(142_857_143));
}

#[test]
fn refused_latency_is_reported_with_its_reason() {
    let c = config(Some(b"hello"), b"ping");
    let mut stats = running_stats();
    let mut log = SendLog::new();
    let mut s = Session::new(Transport::Tcp, false);
    s.start(&mut stats);
    s.step(&c, &mut stats, &mut log, Event::Connected, 0);
    s.step(&c, &mut stats, &mut log, Event::Sent, 0);
    // 100 s after the first message was sent: beyond the histogram's room.
    let st = s.step(&c, &mut stats, &mut log, Event::Received(Reply::Data(5)), 100_000_000_000);
    assert_eq!(st.report, Some(Failure::LatencyNotRecorded(Refusal::ValueOutOfRange)));
    assert_eq!(stats.total_requests, 1);
    assert_eq!(stats.latency_histogram.inner.len(), 0);
}

#[test]
fn tcp_end_of_stream_is_no_error() {
    let c = config(None, b"ping");
    let mut stats = running_stats();
    let mut log = SendLog::new();
    let mut s = Session::new(Transport::Tcp, false);
    s.start(&mut stats);
    s.step(&c, &mut stats, &mut log, Event::Connected, 0);
    s.step(&c, &mut stats, &mut log, Event::Sent, 1);
    let st = s.step(&c, &mut stats, &mut log, Event::Received(Reply::Closed), 2);
    assert_eq!(st.report, None);
    assert_eq!(st.action, Action::Send);
    assert_eq!(stats.connection_errors, 0);

    let mut r = PipelineReader::new(Transport::Tcp, &c);
    let rs = r.on_reply(&c, &mut stats, &mut log, Reply::Closed, 3);
    assert!(!rs.keep_reading);
    assert_eq!(rs.report, None);
    assert_eq!(stats.connection_errors, 0);
}

#[test]
fn lifetime_cuts_a_round_short() {
    let mut c = config(None, b"ping");
    c.channel_lifetime = Some(1_000);
    let mut stats = running_stats();
    let mut log = SendLog::new();
    let mut s = Session::new(Transport::Tcp, false);
    s.start(&mut stats);
    let st = s.step(&c, &mut stats, &mut log, Event::Connected, 100);
    assert_eq!(st.action, Action::Send);
    assert_eq!(st.deadline, Some(1_100));
    // The write completes after the lifetime: no reply is awaited.
    let st = s.step(&c, &mut stats, &mut log, Event::Sent, 1_500);
    assert_eq!(st.action, Action::Close);
    assert_eq!(s.counter, 1);
    // The caller cuts the close short at the deadline.
    let st = s.step(&c, &mut stats, &mut log, Event::LifetimeOver, 1_100);
    assert_eq!(st.action, Action::Finish(Outcome::Completed));
    assert_eq!(stats.success_connections, 1);
}

#[test]
fn lifetime_over_while_waiting_for_a_reply() {
    let mut c = config(None, b"ping");
    c.channel_lifetime = Some(1_000);
    let mut stats = running_stats();
    let mut log = SendLog::new();
    let mut s = Session::new(Transport::WebSocket, false);
    s.start(&mut stats);
    s.step(&c, &mut stats, &mut log, Event::Connected, 0);
    let st = s.step(&c, &mut stats, &mut log, Event::Sent, 10);
    assert_eq!(st.action, Action::Receive);
    let st = s.step(&c, &mut stats, &mut log, Event::LifetimeOver, 1_000);
    assert_eq!(st.action, Action::Close);
    assert_eq!(stats.total_requests, 0);
}

#[test]
fn no_deadline_without_a_lifetime() {
    let c = config(None, b"ping");
    let mut stats = running_stats();
    let mut log = SendLog::new();
    let mut s = Session::new(Transport::Tcp, false);
    s.start(&mut stats);
    let st = s.step(&c, &mut stats, &mut log, Event::Connected, 0);
    assert_eq!(st.deadline, None);
}
