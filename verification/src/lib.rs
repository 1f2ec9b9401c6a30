//! A windowed-state stream transform: per-instrument sliding windows of recent
//! prices, an exact Relative Strength Index (RSI) computation over each full
//! window, and the per-message decisions of the consume-transform-produce loop.
//!
//! Prices are plain scaled integers; the RSI of a window is returned as an
//! exact ratio, so every arithmetic step is verified. The surrounding
//! process (message-bus clients, JSON codec, wall-clock plumbing) hands this
//! library decoded values and takes events back.

pub mod processor;
pub mod rsi;
pub mod window;
