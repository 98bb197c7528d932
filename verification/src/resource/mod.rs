//! CPU usage limiting.

pub mod throttle;
