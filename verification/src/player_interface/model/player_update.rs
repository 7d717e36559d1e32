use crate::player_interface::model::custom_types::GameAction;
use vstd::prelude::*;

verus! {

/// Whether an input begins or ends.
#[derive(Debug, Clone, PartialEq)]
pub enum InputEventType {
    Begin,
    End,
}

/// An action that a player's input begins or ends.
#[derive(Debug, Clone)]
pub struct GameInputEvent<GA> where GA: GameAction {
    pub action: GA,
    pub event_type: InputEventType,
}

impl<GA> GameInputEvent<GA> where GA: GameAction {
    /// The event that the input for `action` begins or ends.
    pub fn new(action: GA, event_type: InputEventType) -> (e: GameInputEvent<GA>)
        ensures
            e.action == action,
            e.event_type == event_type,
    {
        GameInputEvent { action, event_type }
    }
}

/// An input event, and how many ticks after the event before it came.
#[derive(Debug, Clone)]
pub struct GameInputEventTimed<GA> where GA: GameAction {
    pub tick_delta: u64,
    pub game_action_event: GameInputEvent<GA>,
}

/// A run of input events from a tick on.
#[derive(Debug, Clone)]
pub struct GameActionTimeline<GA> where GA: GameAction {
    pub tick_initial: u64,
    pub events: Vec<GameInputEventTimed<GA>>,
}

} // verus!
