use tcpkali2::config::{parse_config, CommandArgs, Config};
use tcpkali2::launch::{Launch, Launcher};

fn config(connections: u64, connect_rate: u64) -> Config {
    parse_config(CommandArgs {
        duration: 1,
        message_size: 1,
        quiet: true,
        nagle: false,
        pipeline: false,
        connections,
        connect_rate,
        connect_timeout: 1,
        channel_lifetime: None,
        first_message_arg: None,
        first_message_file: None,
        message_arg: Some(b"x".to_vec()),
        message_file: None,
        unescape: false,
        payload_seed: 0,
        message_rate: None,
        websocket: false,
    })
}

#[test]
fn connections_open_one_interval_apart() {
    let mut l = Launcher::new(&config(3, 100));
    assert_eq!(l.interval_ns, 10_000_000);
    assert_eq!(l.step(false), Launch::Open);
    assert_eq!(l.step(false), Launch::Wait(10_000_000));
    assert_eq!(l.step(false), Launch::Open);
    assert_eq!(l.step(false), Launch::Wait(10_000_000));
    assert_eq!(l.step(false), Launch::Open);
    // Nothing is left to open: no wait after the last one.
    assert_eq!(l.step(false), Launch::Done);
    assert_eq!(l.opened, 3);
}

#[test]
fn zero_rate_opens_without_waiting() {
    let mut l = Launcher::new(&config(2, 0));
    assert_eq!(l.step(false), Launch::Open);
    assert_eq!(l.step(false), Launch::Open);
    assert_eq!(l.step(false), Launch::Done);
}

#[test]
fn shutting_down_stops_the_launch() {
    let mut l = Launcher::new(&config(5, 3));
    assert_eq!(l.interval_ns, 333_333_333);
    assert_eq!(l.step(false), Launch::Open);
    assert_eq!(l.step(true), Launch::Done);
    assert_eq!(l.opened, 1);
}
