//! The run configuration and how the command line's values make it.

use vstd::prelude::*;
use crate::cli::{generate_payload, payload_byte, unescape, unescaped};

verus! {

/// How long the run warms up before it counts, in nanoseconds.
pub const WARMUP_DURATION_NS: u64 = 5_000_000_000;

/// Settings of a run. Durations are in nanoseconds.
#[derive(Clone, Debug)]
pub struct Config {
    pub duration: u64,
    pub warmup_duration: u64,
    pub message_size: usize,
    pub quiet: bool,
    pub nagle: bool,
    pub pipeline: bool,
    pub connections: u64,
    pub connect_rate: u64,
    pub connect_timeout: u64,
    pub channel_lifetime: Option<u64>,
    pub first_message: Option<Vec<u8>>,
    pub message: Option<Vec<u8>>,
    pub message_rate: Option<u64>,
    pub use_websocket: bool,
}

/// The values of the command line, with each message source read as given
/// (`None` where it was not given; a file is read only when no inline message
/// of the same kind is given). Durations are in nanoseconds.
#[derive(Clone, Debug)]
pub struct CommandArgs {
    pub duration: u64,
    pub message_size: usize,
    pub quiet: bool,
    pub nagle: bool,
    pub pipeline: bool,
    pub connections: u64,
    pub connect_rate: u64,
    pub connect_timeout: u64,
    pub channel_lifetime: Option<u64>,
    /// `--first-message`.
    pub first_message_arg: Option<Vec<u8>>,
    /// Contents of `--first-message-file`.
    pub first_message_file: Option<Vec<u8>>,
    /// `--message`.
    pub message_arg: Option<Vec<u8>>,
    /// Contents of `--message-file`.
    pub message_file: Option<Vec<u8>>,
    /// `-e`: unescape the messages given inline or in files.
    pub unescape: bool,
    /// Seed of the payload made up when no message is given.
    pub payload_seed: u64,
    pub message_rate: Option<u64>,
    pub websocket: bool,
}

/// The first of the two that is given.
pub open spec fn first_given<T>(a: Option<T>, b: Option<T>) -> Option<T> {
    if a is Some { a } else { b }
}

/// What a message given as `raw` is: unescaped when asked for.
pub open spec fn message_of(raw: Option<Vec<u8>>, unescape: bool) -> Option<Seq<u8>> {
    match raw {
        Some(m) => Some(if unescape { unescaped(m@) } else { m@ }),
        None => None,
    }
}

/// The payload made up for a run: `size` letters from `seed`, none for size zero.
pub open spec fn payload_of(size: usize, seed: u64) -> Option<Seq<u8>> {
    if size == 0 {
        None
    } else {
        Some(Seq::new(size as nat, |i: int| payload_byte(seed, i as nat)))
    }
}

/// The bytes of a message, if any.
pub open spec fn bytes_of(m: Option<Vec<u8>>) -> Option<Seq<u8>> {
    match m {
        Some(v) => Some(v@),
        None => None,
    }
}

fn message_exec(raw: Option<Vec<u8>>, unescape_it: bool) -> (r: Option<Vec<u8>>)
    ensures
        bytes_of(r) == message_of(raw, unescape_it),
{
    match raw {
        Some(m) => if unescape_it { Some(unescape(m.as_slice())) } else { Some(m) },
        None => None,
    }
}

/// Builds the run configuration. A message given on the command line wins over
/// one read from a file, which wins, for the repeated message, over a payload of
/// `message-size` letters made up from the seed; with `-e` given messages are
/// unescaped; the warmup lasts five seconds.
pub fn parse_config(args: CommandArgs) -> (c: Config)
    ensures
        c.duration == args.duration,
        c.warmup_duration == WARMUP_DURATION_NS,
        c.message_size == args.message_size,
        c.quiet == args.quiet,
        c.nagle == args.nagle,
        c.pipeline == args.pipeline,
        c.connections == args.connections,
        c.connect_rate == args.connect_rate,
        c.connect_timeout == args.connect_timeout,
        c.channel_lifetime == args.channel_lifetime,
        bytes_of(c.first_message) == first_given(
            message_of(args.first_message_arg, args.unescape),
            message_of(args.first_message_file, args.unescape),
        ),
        bytes_of(c.message) == first_given(
            message_of(args.message_arg, args.unescape),
            first_given(
                message_of(args.message_file, args.unescape),
                payload_of(args.message_size, args.payload_seed),
            ),
        ),
        c.message_rate == args.message_rate,
        c.use_websocket == args.websocket,
{
    let first_message = match message_exec(args.first_message_arg, args.unescape) {
        Some(m) => Some(m),
        None => message_exec(args.first_message_file, args.unescape),
    };
    let message = match message_exec(args.message_arg, args.unescape) {
        Some(m) => Some(m),
        None => match message_exec(args.message_file, args.unescape) {
            Some(m) => Some(m),
            None => {
                let p = generate_payload(args.message_size, args.payload_seed);
                proof {
                    if p is Some {
                        assert(p->Some_0@ == Seq::new(args.message_size as nat, |i: int| payload_byte(args.payload_seed, i as nat)));
                    }
                }
                p
            },
        },
    };
    Config {
        duration: args.duration,
        warmup_duration: WARMUP_DURATION_NS,
        quiet: args.quiet,
        nagle: args.nagle,
        pipeline: args.pipeline,
        connections: args.connections,
        connect_rate: args.connect_rate,
        connect_timeout: args.connect_timeout,
        channel_lifetime: args.channel_lifetime,
        first_message,
        message,
        message_size: args.message_size,
        message_rate: args.message_rate,
        use_websocket: args.websocket,
    }
}

} // verus!
