pub mod actor;
pub mod buffer;
pub mod codec;
pub mod frame;
pub mod game;
pub mod message;
pub mod messages;
pub mod peer;
pub mod server_state;
