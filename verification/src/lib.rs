//! Validation, normalisation and batching of analytics events bound for
//! ClickHouse, with the configuration layering of the ingester.

pub mod text;
pub mod error;
pub mod model;
pub mod validate;
pub mod console;
pub mod config;

pub use console::Cli;
pub mod sink;
pub mod pipeline;
