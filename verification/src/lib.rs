//! Coordination core of a shared publisher: it has cross-chain transactions decided
//! by two-phase commit, and has superblocks built, proved and settled period by period.

pub mod cli;
pub mod codec;
pub mod config;
pub mod config_laws;
pub mod coordinator;
pub mod coordinator_laws;
pub mod coordinator_model;
pub mod coordinator_runs;
pub mod coordinator_state;
pub mod durations;
pub mod effect_laws;
pub mod effects;
pub mod env;
pub mod handler_laws;
pub mod handlers;
pub mod library_laws;
pub mod mailbox;
pub mod message_codec;
pub mod messages;
pub mod metrics;
pub mod operation_laws;
pub mod publisher_laws;
pub mod sbcp;
pub mod sbcp_laws;
pub mod services;
pub mod spans;
pub mod table;
pub mod text;
pub mod time;
pub mod types;
pub mod wire;
pub mod wire_laws;
