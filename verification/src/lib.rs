//! Host telemetry: CPU-time counters, usage percentages, host facts and a
//! latest-value-wins broadcast slot.

pub mod broadcast;
pub mod counter;
pub mod error;
pub mod host;
pub mod sampler;
pub mod text;
pub mod usage;
