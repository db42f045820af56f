//! An embedded, append-only event store: named streams of immutable records,
//! each stream a contiguous version sequence starting at 1, with
//! compare-and-append concurrency control, together with the supporting
//! domain types and input-validation helpers of the scheduling service.

pub mod authelia;
pub mod email;
pub mod events;
pub mod keys;
pub mod model;
pub mod models;
pub mod order;
pub mod store;
pub mod strutil;
pub mod validate;
pub mod whatsapp;
