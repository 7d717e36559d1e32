use crate::player_interface::model::custom_types::{GameAction, GameEvent};
use vstd::prelude::*;

verus! {

/// An event of the game, with words that describe it.
#[derive(Debug, Clone)]
pub struct EventDescriptor<GE> where GE: GameEvent {
    pub event: GE,
    /// Words that tell an automated player what the event means.
    pub hint_text: Option<String>,
}

impl<GE> EventDescriptor<GE> where GE: GameEvent {
    /// The descriptor of `event`, without a description.
    pub fn new(event: GE) -> (d: EventDescriptor<GE>)
        ensures
            d.event == event,
            d.hint_text is None,
    {
        EventDescriptor { event, hint_text: None }
    }

    /// The descriptor with `hint_text` as its description.
    pub fn desc(self, hint_text: String) -> (d: EventDescriptor<GE>)
        ensures
            d.event == self.event,
            d.hint_text == Some(hint_text),
    {
        let mut d = self;
        d.hint_text = Some(hint_text);
        d
    }
}

/// An action of the game, with words that describe it.
#[derive(Debug, Clone)]
pub struct ActionDescriptor<GA> where GA: GameAction {
    pub action: GA,
    /// Words that tell an automated player what the action does.
    pub hint_text: Option<String>,
}

impl<GA> ActionDescriptor<GA> where GA: GameAction {
    /// The descriptor of `action`, without a description.
    pub fn new(action: GA) -> (d: ActionDescriptor<GA>)
        ensures
            d.action == action,
            d.hint_text is None,
    {
        ActionDescriptor { action, hint_text: None }
    }

    /// The descriptor with `hint_text` as its description.
    pub fn desc(self, hint_text: String) -> (d: ActionDescriptor<GA>)
        ensures
            d.action == self.action,
            d.hint_text == Some(hint_text),
    {
        let mut d = self;
        d.hint_text = Some(hint_text);
        d
    }
}

/// What a game declares of itself to the player interface.
#[derive(Debug, Clone)]
pub struct PlayerInterfaceManifest<GE, GA> where GE: GameEvent, GA: GameAction {
    pub name: String,
    pub version: u32,
    /// The highest rate at which the game takes actions.
    pub tick_rate: u32,
    /// Words that tell an automated player what the game is about.
    pub hint_text: Option<String>,
    /// Every event that the game can send.
    pub events_global: Vec<EventDescriptor<GE>>,
    /// Every action that the game can take.
    pub actions_global: Vec<ActionDescriptor<GA>>,
}

} // verus!
