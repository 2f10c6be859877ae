//! Verified core of a streaming text-to-speech job pipeline.
//!
//! A connection session receives control messages over a persistent
//! bidirectional connection, splits submitted text into segments, drives an
//! external synthesis tool over each segment, merges the fragments into one
//! artifact, and streams ordered progress, completion and error events back
//! to the caller.  The decision logic — segmentation, the job state machine
//! with its progress and cleanup discipline, event ordering, and session
//! dispatch — lives here and is verified; the surrounding process, file and
//! network work is driven from outside through plain actions and outcomes.

pub mod accounts;
pub mod chunker;
pub mod ids;
pub mod naming;
pub mod pipeline;
pub mod progress;
pub mod router;
pub mod session;
