//! Adaptive telemetry collection engine: sampling caches, smoothing, the
//! process-tree resolver, the collector, the broadcast loop and the profiler
//! sidecar, with every value held in integer units (percentages in basis
//! points, sizes in MiB, temperatures in milli-degrees Celsius, clocks in
//! milliseconds). Reading the OS counters and running the loops on a clock
//! is the host's part; every decision is made and proved here.

pub mod appusage;
pub mod cache;
pub mod collector;
pub mod commands;
pub mod devinfo;
pub mod ema;
pub mod measure;
pub mod proctree;
pub mod profiler;
pub mod schedule;
pub mod sensors;
pub mod snapshot;
pub mod text;
pub mod tick_loop;
pub mod types;
