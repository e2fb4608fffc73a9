//! Trailing-peak loudness metering.
//!
//! A buffer of quantized audio samples is reduced to one loudness level
//! ([`level`]). Levels stream into sliding windows, each of which reports
//! the loudest level of its own trailing span of time ([`time_window`],
//! with its model in [`window_model`]). A registry feeds several windows
//! from one stream and reads them together ([`registry`]); behind a lock
//! it serves a producer and a consumer at once ([`shared`]).
//!
//! Levels are integers, in thousandths of a decibel relative to full scale.
//! Capture times and retention spans are integers too, in nanoseconds.

pub mod level;
pub mod queue;
pub mod registry;
pub mod shared;
pub mod time_window;
pub mod window_model;
