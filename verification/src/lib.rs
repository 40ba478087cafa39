pub mod config;
pub mod events;
pub mod extractors;
pub mod formatter;
pub mod ids;
pub mod models;
pub mod ranking;
pub mod retrieval;
pub mod store;
pub mod text;
