//! Voice-channel permission enforcement.
//!
//! A guild is held as a snapshot of plain values ([`model::Guild`]). From it the
//! library decides whether an incoming change can alter an enforcement outcome,
//! how wide the re-check must be, which connected users fail the connect check,
//! and what a manual prune reports.
pub mod model;
pub mod oracle;
pub mod policy;
pub mod gate;
pub mod search;
pub mod remedy;
pub mod engine;
pub mod command;
pub mod response;
