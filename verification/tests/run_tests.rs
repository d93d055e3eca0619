use tcpkali2::config::{parse_config, CommandArgs};
use tcpkali2::run::{Run, RunAction, LIVE_INTERVAL_NS};

fn run(quiet: bool) -> Run {
    Run::new(&parse_config(CommandArgs {
        duration: 3_000,
        message_size: 1,
        quiet,
        nagle: false,
        pipeline: false,
        connections: 1,
        connect_rate: 1,
        connect_timeout: 1,
        channel_lifetime: None,
        first_message_arg: None,
        first_message_file: None,
        message_arg: Some(b"x".to_vec()),
        message_file: None,
        unescape: false,
        payload_seed: 0,
        message_rate: None,
        websocket: false,
    }))
}

#[test]
fn run_warms_up_measures_and_stops() {
    let mut r = run(false);
    assert_eq!(r.step(0), RunAction::WarmUp(5_000_000_000));
    assert_eq!(r.step(10), RunAction::EndWarmup);
    assert_eq!(r.step(1_000), RunAction::Tick { wait: LIVE_INTERVAL_NS, print: true });
    assert_eq!(r.step(3_009), RunAction::Tick { wait: LIVE_INTERVAL_NS, print: true });
    assert_eq!(r.step(3_010), RunAction::Stop);
    assert_eq!(r.step(3_011), RunAction::Done);
}

#[test]
fn quiet_run_prints_nothing_live() {
    let mut r = run(true);
    r.step(0);
    r.step(0);
    assert_eq!(r.step(1), RunAction::Tick { wait: LIVE_INTERVAL_NS, print: false });
}
