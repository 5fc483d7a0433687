//! Build pipeline and hot-reload coordination for a configuration-driven
//! content server: configuration, templates, route table, published
//! snapshots and the rebuild trigger.
pub mod text;
pub mod template;
pub mod route;
pub mod config;
pub mod snapshot;
pub mod pipeline;
pub mod watcher;
