pub mod commands;
pub mod player_tracker;
pub mod registry;
pub mod triggers;
pub mod permissions;
pub mod events;
