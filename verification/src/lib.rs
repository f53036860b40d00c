//! Core of a metric-driven automation daemon: each configured trigger watches
//! an externally detected condition edge, waits out a stability window, and
//! fires an HTTP or MQTT action once the edge is confirmed stable.
//!
//! This crate holds the verified logic: the per-trigger debounce state
//! machine, template interpolation, parameter resolution, and action
//! dispatch planning. The surrounding process performs the network and file
//! operations and feeds their outcomes back in as plain values.

pub mod config;
pub mod interpolate;
pub mod trigger;
