use vstd::prelude::*;

verus! {

/// Top-level phase of a play session. Movement runs only while `Playing`;
/// the two collision states are terminal and are read by the surrounding
/// screen to pick the game-over message.
#[derive(Clone, Copy, PartialEq, Eq, Structural, Debug)]
pub enum GameState {
    Playing,
    HitYourself,
    HitWall,
}

impl Default for GameState {
    /// A fresh session starts in the playing phase.
    fn default() -> (g: GameState)
        ensures
            g is Playing,
    {
        GameState::Playing
    }
}

} // verus!
