pub mod ao_module;
pub mod asset_loader;
pub mod commands;
pub mod error;
pub mod game_tick;
pub mod globals;
pub mod marshal;
pub mod memory;
pub mod namespace;
pub mod path;
pub mod player_interface;
pub mod query;
pub mod reflect;
pub mod registry;
pub mod resolve;
pub mod script;
pub mod system;
pub mod tick;
mod util;
pub mod value;
