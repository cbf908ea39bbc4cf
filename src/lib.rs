pub mod allocation;
pub mod laws;
pub mod models;
pub mod names;
pub mod server;
pub mod stats;
pub mod store;
