use vstd::prelude::*;

use crate::constants::Operations;
use crate::vec2::{axis_dist, in_bounds, manhattan, Vec2};

verus! {

/// The horizontal and vertical displacement a command asks for. `Wait` asks
/// for none, and the default player treats `Warp` the same way.
pub open spec fn op_delta(op: Operations) -> (int, int) {
    match op {
        Operations::Up => (0, -1),
        Operations::Down => (0, 1),
        Operations::Left => (-1, 0),
        Operations::Right => (1, 0),
        Operations::UpperLeft => (-1, -1),
        Operations::UpperRight => (1, -1),
        Operations::LowerLeft => (-1, 1),
        Operations::LowerRight => (1, 1),
        Operations::Wait => (0, 0),
        Operations::Warp => (0, 0),
    }
}

/// Where the default player ends up after a command: the target cell when it
/// lies on the board, the old position otherwise — a step off the board is
/// refused whole, never clamped partway.
pub open spec fn player_step(pos: Vec2, size: Vec2, op: Operations) -> Vec2 {
    let d = op_delta(op);
    let tx = pos.x + d.0;
    let ty = pos.y + d.1;
    if 0 <= tx <= size.x && 0 <= ty <= size.y {
        Vec2 { x: tx as u64, y: ty as u64 }
    } else {
        pos
    }
}

/// One coordinate of the greedy pursuit: a single step toward the target
/// coordinate, or standing still once level with it.
pub open spec fn step_toward(a: u64, b: u64) -> u64 {
    if b < a {
        (a - 1) as u64
    } else if b > a {
        (a + 1) as u64
    } else {
        a
    }
}

/// Where the default enemy ends up: one step toward the player on each axis
/// independently, so diagonal closing is possible.
pub open spec fn chase_step(pos: Vec2, player: Vec2) -> Vec2 {
    Vec2 { x: step_toward(pos.x, player.x), y: step_toward(pos.y, player.y) }
}

/// The identities and positions of a row of default enemies after each takes
/// its greedy step toward the player.
pub open spec fn chase_all(es: Seq<(u64, Vec2)>, p: Vec2) -> Seq<(u64, Vec2)> {
    Seq::new(es.len(), |i: int| (es[i].0, chase_step(es[i].1, p)))
}

/// The player actor capability: it reports its position and, once per turn,
/// consumes the issued command together with the board size and a read-only
/// view of all enemy positions, and takes its new position.
///
/// `next_pos_spec` fixes each implementation's movement rule and `next` must
/// realize it. Every implementation must leave its position unchanged on
/// `Wait` and must keep an in-bounds position in bounds.
pub trait PlayerTrait: Sized {
    /// The current position.
    spec fn pos_spec(&self) -> Vec2;

    /// The position the actor will take for the given turn.
    spec fn next_pos_spec(&self, size: Vec2, op: Operations, enemies: Seq<Vec2>) -> Vec2;

    fn pos(&self) -> (r: Vec2)
        ensures
            r == self.pos_spec(),
    ;

    fn next(&mut self, size: Vec2, op: Operations, enemies: &Vec<Vec2>)
        ensures
            final(self).pos_spec() == old(self).next_pos_spec(size, op, enemies@),
            op == Operations::Wait ==> final(self).pos_spec() == old(self).pos_spec(),
            in_bounds(old(self).pos_spec(), size) ==> in_bounds(final(self).pos_spec(), size),
    ;
}

/// The enemy actor capability: it reports a stable identity and its
/// position and, once per turn, consumes the board size and the player's
/// position and takes its new position. `next_pos_spec` fixes each
/// implementation's movement rule and `next` must realize it without
/// changing the identity.
pub trait EnemyTrait: Sized {
    /// The stable identity distinguishing this enemy; it never changes.
    spec fn id_spec(&self) -> u64;

    /// The current position.
    spec fn pos_spec(&self) -> Vec2;

    /// The position the enemy will take when it sees the player at `player`.
    spec fn next_pos_spec(&self, size: Vec2, player: Vec2) -> Vec2;

    fn id(&self) -> (r: u64)
        ensures
            r == self.id_spec(),
    ;

    fn pos(&self) -> (r: Vec2)
        ensures
            r == self.pos_spec(),
    ;

    fn next(&mut self, size: Vec2, player: Vec2)
        ensures
            final(self).id_spec() == old(self).id_spec(),
            final(self).pos_spec() == old(self).next_pos_spec(size, player),
    ;
}

/// The default player actor: it obeys the eight directional commands,
/// refusing any step that would leave the board, does nothing on `Wait`,
/// stays put on `Warp` (its placement policy), and pays no attention to the
/// enemies.
pub struct SimplePlayer {
    pub pos: Vec2,
}

impl SimplePlayer {
    pub fn new(x: u64, y: u64) -> (r: SimplePlayer)
        ensures
            r.pos == (Vec2 { x, y }),
    {
        SimplePlayer { pos: Vec2::new(x, y) }
    }
}

impl PlayerTrait for SimplePlayer {
    open spec fn pos_spec(&self) -> Vec2 {
        self.pos
    }

    open spec fn next_pos_spec(&self, size: Vec2, op: Operations, enemies: Seq<Vec2>) -> Vec2 {
        player_step(self.pos, size, op)
    }

    fn pos(&self) -> (r: Vec2) {
        self.pos
    }

    fn next(&mut self, size: Vec2, op: Operations, enemies: &Vec<Vec2>) {
        let p = self.pos;
        let mut tx: u64 = p.x;
        let mut ty: u64 = p.y;
        let mut ok: bool = true;
        match op {
            Operations::Up => {
                if p.y == 0 {
                    ok = false;
                } else {
                    ty = p.y - 1;
                }
            }
            Operations::Down => {
                if p.y == u64::MAX {
                    ok = false;
                } else {
                    ty = p.y + 1;
                }
            }
            Operations::Left => {
                if p.x == 0 {
                    ok = false;
                } else {
                    tx = p.x - 1;
                }
            }
            Operations::Right => {
                if p.x == u64::MAX {
                    ok = false;
                } else {
                    tx = p.x + 1;
                }
            }
            Operations::UpperLeft => {
                if p.x == 0 || p.y == 0 {
                    ok = false;
                } else {
                    tx = p.x - 1;
                    ty = p.y - 1;
                }
            }
            Operations::UpperRight => {
                if p.x == u64::MAX || p.y == 0 {
                    ok = false;
                } else {
                    tx = p.x + 1;
                    ty = p.y - 1;
                }
            }
            Operations::LowerLeft => {
                if p.x == 0 || p.y == u64::MAX {
                    ok = false;
                } else {
                    tx = p.x - 1;
                    ty = p.y + 1;
                }
            }
            Operations::LowerRight => {
                if p.x == u64::MAX || p.y == u64::MAX {
                    ok = false;
                } else {
                    tx = p.x + 1;
                    ty = p.y + 1;
                }
            }
            Operations::Wait => {}
            Operations::Warp => {}
        }
        if ok && tx <= size.x && ty <= size.y {
            self.pos = Vec2::new(tx, ty);
        }
    }
}

/// The default enemy actor: greedy, non-pathfinding pursuit — one step
/// toward the player on each axis independently, every turn. It does not
/// avoid other enemies; the engine resolves the collisions that follow.
pub struct SimpleEnemy {
    pub id: u64,
    pub pos: Vec2,
}

impl SimpleEnemy {
    /// An enemy with the default identity.
    pub fn new(x: u64, y: u64) -> (r: SimpleEnemy)
        ensures
            r.id == 1,
            r.pos == (Vec2 { x, y }),
    {
        SimpleEnemy { id: 1, pos: Vec2::new(x, y) }
    }

    /// An enemy with a caller-chosen identity, so that several enemies on
    /// one board can be told apart.
    pub fn with_id(id: u64, x: u64, y: u64) -> (r: SimpleEnemy)
        ensures
            r.id == id,
            r.pos == (Vec2 { x, y }),
    {
        SimpleEnemy { id, pos: Vec2::new(x, y) }
    }
}

impl EnemyTrait for SimpleEnemy {
    open spec fn id_spec(&self) -> u64 {
        self.id
    }

    open spec fn pos_spec(&self) -> Vec2 {
        self.pos
    }

    open spec fn next_pos_spec(&self, size: Vec2, player: Vec2) -> Vec2 {
        chase_step(self.pos, player)
    }

    fn id(&self) -> (r: u64) {
        self.id
    }

    fn pos(&self) -> (r: Vec2) {
        self.pos
    }

    fn next(&mut self, size: Vec2, player: Vec2) {
        let p = self.pos;
        let mut x: u64 = p.x;
        let mut y: u64 = p.y;
        if player.x < p.x {
            x = p.x - 1;
        }
        if player.x > p.x {
            x = p.x + 1;
        }
        if player.y < p.y {
            y = p.y - 1;
        }
        if player.y > p.y {
            y = p.y + 1;
        }
        self.pos = Vec2::new(x, y);
    }
}

/// After a `Wait` command the default player stays exactly where it was,
/// whatever the board size.
pub proof fn lemma_wait_keeps_player(pos: Vec2, size: Vec2)
    ensures
        player_step(pos, size, Operations::Wait) == pos,
{
}

/// A directional command whose target cell lies off the board — one step
/// past an edge on either axis — leaves the default player's position
/// unchanged: the move is refused whole, never clamped partway.
pub proof fn lemma_boundary_clamp(pos: Vec2, size: Vec2, op: Operations)
    requires
        ({
            let d = op_delta(op);
            pos.x + d.0 < 0 || pos.x + d.0 > size.x || pos.y + d.1 < 0 || pos.y + d.1 > size.y
        }),
    ensures
        player_step(pos, size, op) == pos,
{
}

/// Greedy pursuit never overshoots: after one enemy step the distance to
/// the player shrinks by exactly one on each axis where it was positive and
/// stays zero where it was zero, so the Manhattan distance never grows and
/// falls by at most one per axis.
pub proof fn lemma_chase_closes(e: Vec2, p: Vec2)
    ensures
        axis_dist(chase_step(e, p).x, p.x) == if e.x == p.x {
            0nat
        } else {
            (axis_dist(e.x, p.x) - 1) as nat
        },
        axis_dist(chase_step(e, p).y, p.y) == if e.y == p.y {
            0nat
        } else {
            (axis_dist(e.y, p.y) - 1) as nat
        },
        manhattan(chase_step(e, p), p) <= manhattan(e, p),
{
}

/// The greedy step lands on the player exactly when the enemy already stands
/// within one cell of the player on both axes.
pub proof fn lemma_chase_contact(e: Vec2, p: Vec2)
    ensures
        chase_step(e, p) == p <==> axis_dist(e.x, p.x) <= 1 && axis_dist(e.y, p.y) <= 1,
{
}

} // verus!
