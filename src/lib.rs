//! Ingestion, batching and persistence logic for the GPU-API telemetry pipeline.
pub mod aggregator;
pub mod ingress;
pub mod launch;
pub mod model;
pub mod naming;
pub mod query;
pub mod sql;
pub mod writer;
