//! Capture–compare–resize pipeline for periodic screen recording.
//!
//! The library holds the decisions of the pipeline: the sizing policy of
//! the resizer, the perceptual change detector, the per-monitor store of
//! last accepted frames, file naming, and the per-cycle processing of the
//! captured frames. Capturing, encoding, writing files and scheduling are
//! left to the caller.
pub mod frame;
pub mod sizing;
pub mod detector;
pub mod store;
pub mod resize;
pub mod naming;
pub mod cycle;
