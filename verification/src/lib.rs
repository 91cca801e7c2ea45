//! A deterministic micro-benchmark engine: two fixed synthetic workloads are
//! run in chunks, timed, and reduced to latency statistics and a content
//! digest that is reproducible across implementations.

pub mod benchmark;
pub mod chunks;
pub mod kernels;
pub mod observer;
pub mod params;
pub mod prng;
pub mod progress;
pub mod report;
pub mod runner;
pub mod stats;
pub mod text;
pub mod ui;
