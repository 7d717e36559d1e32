use vstd::prelude::*;

verus! {

/// The number of the tick that the game is in.
#[derive(Clone)]
pub struct RealityGameTick {
    pub tick: u64,
}

/// Moves the game on by one tick.
pub fn increment_game_tick(game_tick: &mut RealityGameTick)
    requires
        old(game_tick).tick < u64::MAX,
    ensures
        final(game_tick).tick == old(game_tick).tick + 1,
{
    game_tick.tick += 1;
}

/// What starts the count of ticks when the game is set up.
pub struct RealityGameTickPlugin {
    pub game_tick: RealityGameTick,
}

impl RealityGameTickPlugin {
    /// A count that starts at `tick`.
    pub fn new(tick: u64) -> (p: RealityGameTickPlugin)
        ensures
            p.game_tick.tick == tick,
    {
        RealityGameTickPlugin { game_tick: RealityGameTick { tick } }
    }

    /// A count that starts at zero.
    pub fn default() -> (p: RealityGameTickPlugin)
        ensures
            p.game_tick.tick == 0,
    {
        RealityGameTickPlugin { game_tick: RealityGameTick { tick: 0 } }
    }
}

} // verus!
