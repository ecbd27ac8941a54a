//! Capture dispatch and status tracking for a web-capture service: login
//! sessions, a registry of capture workers with a load-based selector, and
//! coordinators that dispatch captures and batches and track their progress.

pub mod bindings;
pub mod models;
pub mod session;
pub mod config;
pub mod worker;
pub mod capture;
pub mod batch;
pub mod client;
pub mod req;
pub mod resp;
pub mod api;
pub mod tasks;
