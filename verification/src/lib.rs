//! An in-process, at-least-once buffer of publications.
//!
//! Producers append publications; a consumer draws a bounded batch, works
//! through it and commits it. Until the commit, asking for a batch again
//! hands out the same batch, so nothing is lost when a consumer gives up
//! half way.
//!
//! This crate is the sequential core: every operation takes the store by
//! exclusive reference. Sharing it between tasks, suspending a consumer
//! until a publication arrives and holding the lease between acquisition
//! and commit are left to the caller.

pub mod batch;
pub mod laws;
pub mod model;
pub mod publication;
pub mod queue;
pub mod store;
