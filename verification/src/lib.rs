//! Verified core of a small collection of tokio study programs: a hand-written
//! future state machine, a mini-redis style key/value command executor, a
//! tracing field store, models of the lock protocols the programs exercise,
//! an echo server's read handling and a command-line message choice.

pub mod cli;
pub mod echo;
pub mod fields;
pub mod future;
pub mod kv;
pub mod lock;
