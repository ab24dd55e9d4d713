//! The collision layers of the game world.
use vstd::prelude::*;

verus! {

/// The collision layer an entity belongs to.
#[derive(Clone, Copy, Debug, PartialEq, Eq, Structural)]
pub enum GameLayer {
    Environment,
    Player,
    Enemy,
}

impl Default for GameLayer {
    /// Everything that is not said otherwise belongs to the environment.
    fn default() -> (layer: GameLayer)
        ensures
            layer == GameLayer::Environment,
    {
        GameLayer::Environment
    }
}

} // verus!
