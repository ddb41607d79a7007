//! Decision logic of an Arrow Flight data-plane worker.

pub mod admission;
pub mod admission_flow;
pub mod capability;
pub mod clock;
pub mod codec;
pub mod config;
pub mod env;
pub mod error;
pub mod flight_service;
pub mod flight_uri;
pub mod generate;
pub mod json;
pub mod logging;
pub mod metadata_store;
pub mod metrics;
pub mod metrics_page;
pub mod number;
pub mod path;
pub mod profile;
pub mod put_flow;
pub mod put_grant;
pub mod put_model;
pub mod put_writer;
pub mod query;
pub mod resource;
pub mod server;
pub mod sized_dataset;
pub mod status;
pub mod text;
pub mod ticket;
pub mod upload;
pub mod util;
pub mod worker_status;
