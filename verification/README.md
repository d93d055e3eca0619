# tcpkali2

A load tester for TCP and WebSocket (RFC 6455) servers. The library in `src/`
holds its logic, verified with Verus; `app/` is the command-line program around it.

- `src/config.rs`: the run configuration and how the command line's values make it.
- `src/cli.rs`: durations, rates, message escapes and made-up payloads.
- `src/stats.rs`: the counters and latency samples of a run, with the laws that
  every operation keeps.
- `src/session.rs`: one connection as a state machine (connect, first message,
  main loop, pacing, shutdown) and the reader of a pipelined connection.
- `src/run.rs`: the phases of a run (warmup, measurement, shutdown).
- `src/launch.rs`: opening the run's connections at the connect rate.
- `src/send_log.rs`: the send times of pipelined messages, first in, first out,
  kept in a `crossbeam_queue::SegQueue`.
- `src/histogram.rs`: the `hdrhistogram` latency histogram behind trusted wrappers.
- `app/`: argument parsing with `clap`, the Tokio tasks that perform each action
  of a session over TCP or `tokio-tungstenite`, and the printed reports.
