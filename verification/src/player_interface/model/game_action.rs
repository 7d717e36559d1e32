use std::fmt::Debug;
use vstd::prelude::*;

verus! {

/// What the actions of a game must offer.
pub trait GameActions: Clone + Debug + Sync + Send + 'static {

}

impl<T> GameActions for T where T: Clone + Debug + Sync + Send + 'static {

}

/// Whether an action begins or ends.
#[derive(Debug, Clone, PartialEq)]
pub enum ActionType {
    Begin,
    End,
}

/// An action of the game that begins or ends.
#[derive(Debug, Clone)]
pub struct GameActionEvent<GA> where GA: GameActions {
    pub action: GA,
    pub event: ActionType,
}

impl<GA> GameActionEvent<GA> where GA: GameActions {
    /// The event that `action` begins or ends.
    pub fn new(action: GA, event: ActionType) -> (e: GameActionEvent<GA>)
        ensures
            e.action == action,
            e.event == event,
    {
        GameActionEvent { action, event }
    }
}

/// An action event, and how many ticks after the event before it came.
#[derive(Debug, Clone)]
pub struct GameActionEventTimed<GA> where GA: GameActions {
    pub tick_delta: u64,
    pub game_action_event: GameActionEvent<GA>,
}

/// A run of action events from a tick on.
#[derive(Debug, Clone)]
pub struct GameActionTimeline<GA> where GA: GameActions {
    pub tick_initial: u64,
    pub events: Vec<GameActionEventTimed<GA>>,
}

} // verus!
