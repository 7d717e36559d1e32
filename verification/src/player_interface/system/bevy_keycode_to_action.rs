use crate::player_interface::model::custom_types::GameAction;
use crate::player_interface::model::keyboard::{KeyCode, KeyEvent, KeyboardConfig};
use crate::player_interface::model::player_update::{GameInputEvent, InputEventType};
use vstd::prelude::*;

verus! {

/// The kind of input event that a key event stands for: a press begins, a release ends.
pub open spec fn input_event_type(event: KeyEvent) -> InputEventType {
    match event {
        KeyEvent::Press => InputEventType::Begin,
        KeyEvent::Release => InputEventType::End,
    }
}

/// Turns what happened to a key into the events of the game: one for each action that
/// the configuration binds to the key, in the order of the binding. A key that is not
/// bound gives none.
pub fn bevy_keycode_to_action<GA>(config: &KeyboardConfig<GA>, key_code: &KeyCode, state: KeyEvent) -> (events:
    Vec<GameInputEvent<GA>>) where GA: GameAction
    ensures
        if config@.contains_key(*key_code) {
            let actions = config@[*key_code];
            events@.len() == actions@.len() && forall|i: int|
                0 <= i < events@.len() ==> cloned(actions@[i], (#[trigger] events@[i]).action)
                    && events@[i].event_type == input_event_type(state)
        } else {
            events@.len() == 0
        },
{
    let mut events: Vec<GameInputEvent<GA>> = Vec::new();
    match config.get_actions(key_code) {
        Some(actions) => {
            let mut i: usize = 0;
            while i < actions.len()
                invariant
                    i <= actions.len(),
                    events@.len() == i,
                    forall|j: int|
                        0 <= j < i ==> cloned(actions@[j], (#[trigger] events@[j]).action)
                            && events@[j].event_type == input_event_type(state),
                decreases actions.len() - i,
            {
                let event_type = match state {
                    KeyEvent::Press => InputEventType::Begin,
                    KeyEvent::Release => InputEventType::End,
                };
                events.push(GameInputEvent::new(actions[i].clone(), event_type));
                i += 1;
            }
        },
        None => {},
    }
    events
}

} // verus!
