//! Headless login and keep-alive client for the campus network portal.
pub mod config;
pub mod crypto;
pub mod portal;
pub mod state;
pub mod text;
pub mod watch;
