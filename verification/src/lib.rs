//! Command handling for event-sourced aggregates: registries of handlers and
//! aggregates, the replay-and-dispatch pipeline for one command, the records
//! appended to the event store, and the flow-controlled stream of outbound
//! instructions.

pub mod aggregate;
pub mod error;
pub mod greeter;
pub mod ident;
pub mod message;
pub mod name_map;
pub mod outcome;
pub mod pipeline;
pub mod pipeline_laws;
pub mod pipeline_run;
pub mod store;
pub mod stream;
pub mod worker;
