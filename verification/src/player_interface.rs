pub mod model;
pub mod system;

pub use model::custom_types::{CustomGameTrait, GameAction, GameEvent};
pub use model::game_update::{MediaRef, MediaType, PlayerInterfaceGameUpdate};
pub use model::keyboard::{KeyCode, KeyboardConfig};
pub use model::manifest::{ActionDescriptor, EventDescriptor, PlayerInterfaceManifest};
pub use model::player_update::{GameInputEvent, InputEventType};
pub use system::bevy_keycode_to_action::bevy_keycode_to_action;
