pub mod connection;
pub mod room;
pub mod server;
pub mod signaling;
pub mod track_manager;
pub mod webrtc_utils;
