pub mod game;
pub mod lobby;
