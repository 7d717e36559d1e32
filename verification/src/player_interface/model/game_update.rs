use crate::player_interface::model::custom_types::{GameAction, GameEvent};
use vstd::prelude::*;

verus! {

/// Why the game sends an update.
#[derive(Debug, Clone)]
pub enum UpdateInfo<GE> where GE: GameEvent {
    /// The update is one of those sent at regular intervals.
    Periodic,
    /// Something happened in the game, such as a move in chess.
    GameEvent(GE),
}

/// An update, and how many ticks after the update before it came.
#[derive(Debug, Clone)]
pub struct GameUpdateEventTimed<GE> where GE: GameEvent {
    pub tick_delta: u64,
    pub update: UpdateInfo<GE>,
}

/// The kinds of media that can show the state of a game.
#[derive(Debug, Clone)]
pub enum MediaType {
    Frame,
    FrameSet,
    Video,
    Audio,
}

/// A reference to media that show the state of a game.
#[derive(Debug, Clone)]
pub struct MediaRef {
    /// The time, or the start of the time, that the media belong to.
    pub ts: u64,
    pub media_type: MediaType,
    /// Where the media are found.
    pub uri: String,
}

/// What a game tells the player interface about its state.
#[derive(Debug, Clone)]
pub struct PlayerInterfaceGameUpdate<GE, GA> where GE: GameEvent, GA: GameAction {
    pub tick_initial: u64,
    pub updates: Vec<GameUpdateEventTimed<UpdateInfo<GE>>>,
    /// The actions that can be taken in the current state.
    pub actions_current: Option<Vec<GA>>,
    /// Words that tell an automated player what the state is about.
    pub hint_text: Option<String>,
    /// The state in writing, where the game has a notation for it.
    pub state_text: Option<String>,
    /// Media that show the state.
    pub media_refs: Option<Vec<MediaRef>>,
}

} // verus!
