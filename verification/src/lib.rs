//! WebSocket-to-TCP proxy: the verified core.

pub mod addr;
pub mod client;
pub mod config;
pub mod daemon;
pub mod error;
pub mod paths;
pub mod port_registry;
pub mod relay;
pub mod router;
pub mod routing;
pub mod server;
pub mod text;
pub mod tls;

pub use error::{Error, ErrorKind, ErrorView, Result};
