//! Rooms in which several people label audio files together: the rules of the
//! server, verified.
//!
//! The library decides; the application around it talks to the network, the
//! disk and the clock.
pub mod chance;
pub mod columns;
pub mod db;
pub mod http;
pub mod json;
pub mod laws;
pub mod message;
pub mod record;
pub mod state;
pub mod text;
pub mod ws;
