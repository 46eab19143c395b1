//! The logic of a Railroad Network station: the credit ledger's views, the marketplace,
//! governance and disputes as members read them, the sealed mobile channel, replication
//! between stations, and delivery over slow links.
//!
//! The station's storage, engines and cryptography hand plain values in and take plain
//! values back. What alternates with them is a machine that says what to ask next.

pub mod backup;
pub mod cbor;
pub mod channel;
pub mod channel_client;
pub mod charges;
pub mod clock;
pub mod config;
pub mod contract_view;
pub mod control;
pub mod dispute_view;
pub mod dtn_loop;
pub mod dtn_round;
pub mod dtn_send;
pub mod dtn_step;
pub mod dtn_sync;
pub mod events;
pub mod gossip;
pub mod governance;
pub mod governance_view;
pub mod history;
pub mod ingest;
pub mod inquiry_view;
pub mod ledger_view;
pub mod log;
pub mod market;
pub mod marketplace_view;
pub mod methods;
pub mod order;
pub mod params;
pub mod rpc;
pub mod sweeps;
pub mod tables;
pub mod text;
