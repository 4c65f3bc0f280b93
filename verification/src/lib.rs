//! The verified core of a crawler of Fediverse instances.
pub mod client;
pub mod domain_filter;
pub mod models;
pub mod peers;
pub mod text;
pub mod worker;
