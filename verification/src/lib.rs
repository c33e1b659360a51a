//! The decisions of a PocketBook e-reader host: which viewport to present and
//! where on the panel, what keys and touches mean, when the e-ink panel is
//! updated and how, and when a session ticks, pauses, rotates or ends.
//!
//! Everything here works on plain values. The program around the library talks
//! to the device and to the guest runtime, reports to the library what
//! happened, and does what the library answers.

pub mod config;
pub mod geometry;
pub mod input;
pub mod orientation;
pub mod rect;
pub mod refresh;
pub mod session;
