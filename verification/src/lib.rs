//! Core of a depth-camera touch-sensing pipeline.
//!
//! Raw little-endian depth frames are decoded into per-pixel millimeter
//! values clamped to the camera's measuring range, and a streaming
//! [`touch_detector::TouchDetector`] compares a moving average of the
//! recent depth against a baseline learned during a warm-up window to
//! classify each pixel as touched or untouched.
//!
//! The device and capture layers (discovery, streaming, frame readiness)
//! live outside this crate; everything here works on plain byte buffers
//! and integer values and is fully specified.

pub mod device;
pub mod error;
pub mod frame;
pub mod status;
pub mod touch_detector;
pub mod util;
