//! Incremental synchronization pipeline for remote comment records.
//!
//! The library walks a paginated remote API (accounts, their claims, the
//! comments under each claim), classifies every observed comment against a
//! persisted store, and hands exactly one notification per new or changed
//! comment to a serialized sink.  The fetching, persistence and delivery
//! themselves are left to the caller; what is verified here is every decision
//! the pipeline makes: which pages are still owed, how failed pages are
//! absorbed, how far the fan-out may run ahead, how a comment is classified,
//! and what the store and the notification list look like afterwards.

pub mod domain;
pub mod fanout;
pub mod pagination;
pub mod pipeline;
pub mod sink;
pub mod store;
