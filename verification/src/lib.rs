//! Client-side core of an asynchronous geodata-export job: building the
//! submission payload, classifying the remote service's responses, driving
//! the submit/poll/download lifecycle, and accounting for progress.
//!
//! Everything here is pure logic over byte sequences and plain values; the
//! surrounding binary performs the actual HTTP calls, sleeps and file writes
//! and feeds their outcomes into these functions.

pub mod codec;
pub mod protocol;
pub mod report;
pub mod machine;
