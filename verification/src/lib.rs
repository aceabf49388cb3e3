//! HTTP uptime and response-time exporter for Prometheus: the verified core.

pub mod addr;
pub mod addr_forms;
pub mod addr_laws;
pub mod config;
pub mod config_laws;
pub mod duration;
pub mod entry_laws;
pub mod error;
pub mod fnv;
pub mod exposition;
pub mod family_hashes;
pub mod method;
pub mod method_laws;
pub mod metrics;
pub mod metrics_laws;
pub mod probe;
pub mod scheduler;
pub mod server;
pub mod text;
pub mod text_laws;
pub mod url;
