//! The decisions behind the pumper HTTP API.
//!
//! Handlers read from stores, engines and clocks; everything they *decide* —
//! which status a refusal carries, how a cursor is read back, what a metrics
//! scrape says, when a destructive call may proceed — is a function here, with
//! a contract that pins its result down.

pub mod clock;
pub mod cursor;
pub mod datasets;
pub mod derived;
pub mod doctor;
pub mod economics;
pub mod error;
pub mod events;
pub mod executors;
pub mod export;
pub mod filters;
pub mod grants;
pub mod health;
pub mod ident;
pub mod ingress;
pub mod jobs;
pub mod json;
pub mod listing;
pub mod mesh;
pub mod metrics;
pub mod number;
pub mod order;
pub mod paging;
pub mod preview;
pub mod principals;
pub mod provenance;
pub mod provisioner;
pub mod removal;
pub mod schedules;
pub mod search;
pub mod text;
pub mod triggers;
pub mod weather;
