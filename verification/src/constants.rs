use vstd::prelude::*;

verus! {

/// The closed set of per-turn actions the player may issue. Exactly one is
/// issued per turn. `Wait` performs no positional change; `Warp` relocates
/// the player according to the player actor's own placement policy rather
/// than the eight-neighbor step rule.
#[derive(Clone, Copy, PartialEq, Eq, Structural, Debug)]
pub enum Operations {
    Up,
    Down,
    Left,
    Right,
    UpperLeft,
    UpperRight,
    LowerLeft,
    LowerRight,
    Wait,
    Warp,
}

/// Coarse game-lifecycle state. `PlayerWon` and `PlayerLost` are terminal:
/// once reached, no further turn mutates the engine.
#[derive(Clone, Copy, PartialEq, Eq, Structural, Debug)]
pub enum GameStatus {
    InProgress,
    PlayerWon,
    PlayerLost,
}

/// The occupancy of a single grid coordinate as observed from outside the
/// engine. The enemy variant carries the occupying enemy's stable identity.
#[derive(Clone, Copy, PartialEq, Eq, Structural, Debug)]
pub enum CellStatus {
    Empty,
    Player,
    Enemy(u64),
}

} // verus!
