//! A small multi-device compute substrate: worker pools that run queued
//! thunks, completable events with callback fan-out, a vault (a lock whose
//! guard can be carried across asynchronous steps), multi-device buffers
//! that track where the authoritative copy of an array lives, and a
//! broadcasted dot-product kernel.
//!
//! The concurrency decisions (what a poll of a lock does, which callbacks a
//! completion dispatches, what a synchronization moves) are expressed as
//! transitions on explicit state values, with contracts; the thread pools,
//! futures plumbing and BLAS calls that drive them sit outside this crate.

pub mod broadcast;
pub mod buffer;
pub mod core_ops;
pub mod device;
pub mod event;
pub mod native;
pub mod vault;
pub mod work;
