//! Core of an edge-device security monitor: a detection lifecycle state
//! machine with debouncing and time-bounded streaming/cooldown phases, the
//! classifier decision it is driven by, and the bitmap encoder it calls
//! while streaming.

pub mod config;
pub mod context;
pub mod detector;
pub mod image_processing;
