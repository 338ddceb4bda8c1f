//! Sampling windows and chart models for a system monitor panel applet.

pub mod chart;
pub mod color;
pub mod history;
pub mod monitor;
pub mod state;
