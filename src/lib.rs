//! Admission logic of a prepaid, signature-authenticated JSON-RPC gateway:
//! the replay cache, the balance ledger, the request-signature recipe and
//! the decisions that route an inbound call.

pub mod auth;
pub mod client;
mod clock;
pub mod codec;
pub mod config;
pub mod database;
pub mod deposit;
pub mod ledger;
pub mod pipeline;
pub mod remote;
pub mod signature_cache;
pub mod text;
