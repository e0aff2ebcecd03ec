//! Control plane for a fleet of video-transcoding workers.
//!
//! The library keeps the desired state (streams and their outputs) and the
//! observed state (workers and what they report) in two plain collections,
//! and exposes the verified decision logic of the control loop: discovery,
//! health and drift reconciliation, placement, and snapshot merging.
//! Network and file I/O stay outside; the library computes from plain values.

pub mod codec;
pub mod discovery;
pub mod invariants;
pub mod model;
pub mod outside;
pub mod persist;
pub mod reconcile;
pub mod schedule;
pub mod store;
