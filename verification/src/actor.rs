pub mod arena;
pub mod lobby;
pub mod lobby_manager;
pub mod session;
