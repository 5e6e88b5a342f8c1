//! Verified core of a Tandoor recipe-manager client and tool server.
pub mod client;
pub mod dates;
pub mod server;
pub mod text;

pub use client::TandoorClient;
