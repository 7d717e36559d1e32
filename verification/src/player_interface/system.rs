pub mod bevy_keycode_to_action;
