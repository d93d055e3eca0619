//! Decision logic of a TCP / WebSocket load generator: the run configuration,
//! the statistics shared by all connections, and each connection as a state
//! machine whose actions the caller performs.

pub mod cli;
pub mod config;
pub mod histogram;
pub mod launch;
pub mod run;
pub mod send_log;
pub mod session;
pub mod stats;
