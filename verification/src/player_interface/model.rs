pub mod custom_types;
pub mod game_action;
pub mod game_update;
pub mod keyboard;
pub mod manifest;
pub mod player_update;
