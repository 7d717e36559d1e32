use std::fmt::Debug;
use vstd::prelude::*;

verus! {

/// What every identifier that a game defines for itself must offer.
pub trait CustomGameTrait: Clone + Debug + Sync + Send + 'static {

}

impl<T> CustomGameTrait for T where T: Clone + Debug + Sync + Send + 'static {

}

/// An action that a player can take in a game.
pub trait GameAction: CustomGameTrait {

}

impl<T> GameAction for T where T: Clone + Debug + Sync + Send + 'static {

}

/// An event that a game can report.
pub trait GameEvent: CustomGameTrait {

}

impl<T> GameEvent for T where T: Clone + Debug + Sync + Send + 'static {

}

} // verus!
