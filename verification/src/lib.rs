//! Depot edge for a game-distribution system: chunk planning, streaming
//! encryption, the context cache and the framing of the upstream channel,
//! each with a machine-checked contract.

pub mod admission;
pub mod cache;
pub mod cipher;
pub mod conversions;
pub mod download;
pub mod droplet;
pub mod error;
pub mod flight;
pub mod handlers;
pub mod manifest;
pub mod remote;
pub mod serve;
pub mod server;
pub mod state;
pub mod token;
pub mod wire;

pub use download::DownloadContext;
pub use token::set_token;
