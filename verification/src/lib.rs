//! Measurement orchestration engine for a two-channel waveform-generator /
//! fast-measurement instrument.
//!
//! All physical quantities are carried as fixed-point integers so that every
//! computation on them can be verified exactly: times in nanoseconds,
//! voltages in microvolts, currents in nanoamperes and conductances in
//! nanosiemens.

pub mod conductance;
pub mod config;
pub mod driver;
pub mod intmath;
pub mod measure;
pub mod packer;
pub mod params;
pub mod pulsed;
pub mod records;
pub mod session;
pub mod sim;
pub mod stdp;
pub mod timing;
pub mod types;
pub mod utils;
