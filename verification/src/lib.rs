//! Host-side core for a QMK keyboard companion: the binary report codec,
//! the key-matrix and LED state model, the LED effect pipeline, and the
//! per-tick scheduling logic of the device I/O loop.
//!
//! The surrounding program owns the device handle, the worker thread and
//! the snapshot channel; this crate is the verified logic between them:
//! what a report means, what it does to the state, what gets sent back,
//! and what gets published.

pub mod color;
pub mod config;
pub mod effects;
pub mod matrix;
pub mod protocol;
pub mod runtime;
