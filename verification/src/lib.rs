//! A harness for scenarios on a local network of base nodes, wallets and
//! miners, and the console commands of a node that deal with peers.
//!
//! The harness keeps the actors of a scenario under their names (`world`),
//! plans how their processes are started and ended (`supervisor`), finds the
//! service behind a name (`client`), waits for conditions with bounded
//! retries (`retry`, `checks`), resolves the phrases of a scenario to steps
//! (`steps`) and runs scenarios a few at a time (`scheduler`). Nothing here
//! talks to a process: the caller starts, asks and sleeps, and hands over
//! what it has seen.

pub mod autonat;
pub mod checks;
pub mod client;
pub mod codes;
pub mod coinbase;
pub mod commands;
pub mod error;
pub mod payment;
pub mod retry;
pub mod scheduler;
pub mod steps;
pub mod store;
pub mod supervisor;
pub mod text;
pub mod world;
