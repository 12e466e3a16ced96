//! Verified core of a watermark-correlation latency probe.
//!
//! Two endpoints measure the glass-to-glass delay of a live video transport:
//! the emitter stamps a sentinel into the luma plane of a few frames after
//! each trigger, and the receiver correlates the first stamped frame it sees
//! with the trigger it sent. This crate holds the state machines, the
//! measurement ledger, and the text of the reports; clocks, sockets and the
//! media session stay with the caller.

pub mod text;

pub mod geometry;

pub mod watermark;

pub mod stats;

pub mod ledger;

pub mod receiver;

pub mod report;

pub mod session;

pub mod signal;

pub mod emitter;
