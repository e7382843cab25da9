//! Core runtime logic of the Tork web framework: routing tables, path
//! normalization, error rendering decisions, middleware policies, Server-Sent
//! Events encoding, and upload limits, each with a machine-checked contract.

pub mod security;
pub mod text;
pub mod paths;
pub mod constants;
pub mod error;
pub mod middleware;
pub mod decimal;
pub mod duration;
pub mod sse;
pub mod header;
pub mod extract;
pub mod routes;
pub mod matcher;
pub mod multipart;
pub mod logging;
pub mod log_record;
pub mod cache;
pub mod server;
pub mod settings;
pub mod config_tree;
pub mod lifecycle;
pub mod hooks;
pub mod bench;
pub mod body;
pub mod application;
