//! metalps — GPU process monitoring: the verified core.
//!
//! This crate holds the logic of the monitor: how raw per-process samples
//! are joined into per-process GPU activity, how processes are filtered and
//! ordered, how byte counts and durations are rendered as short text, how
//! the command-line and file configuration are merged, and which Prometheus
//! gauges an update sets. Platform queries (IOKit, Mach), clocks, sleeping,
//! files, the network and floating-point arithmetic live in the companion
//! application crate.

pub mod cli_config;
pub mod collector;
pub mod device;
pub mod exporter_config;
pub mod gpu_metrics;
pub mod logging;
pub mod output;
pub mod sampling;
pub mod text;
pub mod types;

pub use rust_template_foundation::logging::{LogFormat, LogLevel};
pub use types::{DeviceGpuInfo, GpuOutput, GpuProcessInfo, SortKey};
