pub mod cache;
pub mod cli;
pub mod client;
pub mod commands;
pub mod error;
pub mod json;
pub mod json_text;
pub mod json_read;
pub mod laws;
pub mod ordered;
pub mod output;
pub mod render;
pub mod runtime;
pub mod schema_cmd;
pub mod span;
pub mod text;
pub mod ttl_bound;
pub mod tty;
