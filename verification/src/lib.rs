//! Submission intake and execution-outcome pipeline for a remote build service.
//!
//! The library holds the decision logic of the service: dispatching the parts
//! of an incoming submission, planning the normalization of an extracted
//! archive, building the argument vector for the external runner, classifying
//! the runner's result, and interpreting the responses of the remote blob
//! store. Every function here is verified; the surrounding process (HTTP
//! routing, file writes, subprocess spawning, network calls) hands plain
//! values in and takes plain values back.

pub mod errors;
pub mod text;
pub mod paths;
pub mod classify;
pub mod invoke;
pub mod normalize;
pub mod intake;
pub mod blob_store;
