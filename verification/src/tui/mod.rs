//! The user interface in the terminal.

pub mod app;
pub mod event_laws;
pub mod input;
pub mod key_laws;
pub mod laws;
pub mod overlay;
pub mod qr;
pub mod state;
pub mod theme;
pub mod ui;
pub mod view_laws;
