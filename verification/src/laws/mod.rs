//! What holds of the server as a whole.
pub mod messages;
pub mod names;
pub mod reach;
pub mod records;
pub mod requests;
pub mod rooms;
pub mod rows;
pub mod sockets;
pub mod texts;
pub mod wire;
pub mod words;
