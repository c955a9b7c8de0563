//! Local network file sharing.

pub mod checksum;
pub mod cli;
pub mod client;
pub mod config;
pub mod discovery;
pub mod folder;
pub mod page;
pub mod paths;
pub mod server;
pub mod shares;
pub mod table;
pub mod text;
pub mod time;
pub mod tls;
pub mod tui;
pub mod upload;
