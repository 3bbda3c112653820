//! The verified core of a desktop video compressor built around FFmpeg: how an
//! encode is planned (output format checks, names, video/audio/output
//! arguments, two-pass additions, bitrate zones), how a size overshoot is
//! corrected, which output resolutions are considered, which hardware encoders
//! are offered, how each file of a compression queue proceeds from run to
//! run, and how FFmpeg's own reports are read.
//!
//! Process launching, file system work, the window and tray, and the
//! floating-point analysis of motion and bitrate budgets live outside this
//! crate and hand plain values to it.

pub mod args;
pub mod base64;
pub mod budget;
pub mod encode;
pub mod events;
pub mod geometry;
pub mod gpu;
pub mod hardware;
pub mod install;
pub mod queue;
pub mod text;
pub mod zones;
