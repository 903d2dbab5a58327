use vstd::prelude::*;

use crate::constants::{CellStatus, GameStatus, Operations};
use crate::creatures::{chase_all, chase_step, op_delta, player_step};
use crate::creatures::{EnemyTrait, PlayerTrait, SimpleEnemy, SimplePlayer};
use crate::creatures::{
    lemma_boundary_clamp, lemma_chase_closes, lemma_chase_contact, lemma_wait_keeps_player,
};
use crate::vec2::{axis_dist, in_bounds, manhattan, Vec2};

verus! {

/// Why construction of an engine is refused: an actor's starting position
/// lies off the board. It carries the offending coordinate and the bound it
/// violated.
#[derive(Clone, Copy, PartialEq, Eq, Structural, Debug)]
pub enum RobotsError {
    InvalidPosition { pos: Vec2, bound: Vec2 },
}

/// The identity and position each enemy actor in the row reports.
pub open spec fn obs<E: EnemyTrait>(es: Seq<E>) -> Seq<(u64, Vec2)> {
    Seq::new(es.len(), |i: int| (es[i].id_spec(), es[i].pos_spec()))
}

/// The positions alone of a row of recorded enemies.
pub open spec fn positions_of(es: Seq<(u64, Vec2)>) -> Seq<Vec2> {
    Seq::new(es.len(), |i: int| es[i].1)
}

/// The identity and position each enemy actor will report after stepping by
/// its own rule toward the player at `p`.
pub open spec fn moved_obs<E: EnemyTrait>(es: Seq<E>, size: Vec2, p: Vec2) -> Seq<(u64, Vec2)> {
    Seq::new(es.len(), |i: int| (es[i].id_spec(), es[i].next_pos_spec(size, p)))
}

/// Some position in the row equals the player's cell.
pub open spec fn hits_player(ps: Seq<Vec2>, p: Vec2) -> bool {
    exists|i: int| 0 <= i < ps.len() && ps[i] == p
}

/// How many positions in the row equal `p`.
pub open spec fn count_of(ps: Seq<Vec2>, p: Vec2) -> nat
    decreases ps.len(),
{
    if ps.len() == 0 {
        0
    } else {
        count_of(ps.drop_last(), p) + if ps.last() == p {
            1nat
        } else {
            0nat
        }
    }
}

/// The enemies that survive mutual collisions: those whose cell, within the
/// full row of moved positions `all`, no other enemy occupies. Order is
/// kept; every member of a colliding group is eliminated.
pub open spec fn survivors(mv: Seq<(u64, Vec2)>, all: Seq<Vec2>) -> Seq<(u64, Vec2)>
    decreases mv.len(),
{
    if mv.len() == 0 {
        Seq::empty()
    } else {
        let rest = survivors(mv.drop_last(), all);
        if count_of(all, mv.last().1) == 1 {
            rest.push(mv.last())
        } else {
            rest
        }
    }
}

/// The status one turn's collision resolution yields from the moved player
/// position and the moved enemy row: contact with the player loses, a board
/// cleared of enemies wins, anything else plays on.
pub open spec fn resolve_status(p: Vec2, mv: Seq<(u64, Vec2)>) -> GameStatus {
    if hits_player(positions_of(mv), p) {
        GameStatus::PlayerLost
    } else if survivors(mv, positions_of(mv)).len() == 0 {
        GameStatus::PlayerWon
    } else {
        GameStatus::InProgress
    }
}

/// The first enemy in the row standing on `pos`, if any.
pub open spec fn first_enemy_at(es: Seq<(u64, Vec2)>, pos: Vec2) -> Option<u64>
    decreases es.len(),
{
    if es.len() == 0 {
        None
    } else if es[0].1 == pos {
        Some(es[0].0)
    } else {
        first_enemy_at(es.skip(1), pos)
    }
}

/// The first out-of-bounds starting position among the enemy actors, if any.
pub open spec fn first_oob<E: EnemyTrait>(es: Seq<E>, size: Vec2) -> Option<Vec2>
    decreases es.len(),
{
    if es.len() == 0 {
        None
    } else if !in_bounds(es[0].pos_spec(), size) {
        Some(es[0].pos_spec())
    } else {
        first_oob(es.skip(1), size)
    }
}

/// The grid authority: it owns the board size, the player actor and the
/// enemy actors, applies the full turn-resolution protocol once per call of
/// `advance`, and answers read-only cell queries between turns.
pub struct Robots<P: PlayerTrait, E: EnemyTrait> {
    size: Vec2,
    player: P,
    enemies: Vec<E>,
    status: GameStatus,
}

impl<P: PlayerTrait, E: EnemyTrait> Robots<P, E> {
    /// The fixed board size.
    pub closed spec fn size_spec(&self) -> Vec2 {
        self.size
    }

    /// The player actor.
    pub closed spec fn player_actor(&self) -> P {
        self.player
    }

    /// The enemy actors, in their stable order.
    pub closed spec fn enemies_seq(&self) -> Seq<E> {
        self.enemies@
    }

    /// The current lifecycle state.
    pub closed spec fn status_spec(&self) -> GameStatus {
        self.status
    }

    /// The player's position.
    pub open spec fn player_pos_spec(&self) -> Vec2 {
        self.player_actor().pos_spec()
    }

    /// Well-formed between turns: the player stands on the board.
    pub open spec fn wf(&self) -> bool {
        in_bounds(self.player_pos_spec(), self.size_spec())
    }

    /// What occupies a cell as observed from outside: the player, else the
    /// first enemy in the stable order standing there, else nothing.
    pub open spec fn at_spec(&self, pos: Vec2) -> CellStatus {
        if self.player_pos_spec() == pos {
            CellStatus::Player
        } else {
            match first_enemy_at(obs(self.enemies_seq()), pos) {
                Some(id) => CellStatus::Enemy(id),
                None => CellStatus::Empty,
            }
        }
    }

    /// How one in-progress turn transforms the engine: the player moves
    /// first by its own rule, seeing the pre-turn enemy positions; every
    /// enemy then steps by its own rule toward the player's new position;
    /// contact with the player loses the game with the whole moved row kept,
    /// otherwise enemies sharing a cell are eliminated and a cleared board
    /// wins.
    pub open spec fn advance_rel(pre: Self, post: Self, op: Operations) -> bool {
        let sz = pre.size_spec();
        let p1 = pre.player_actor().next_pos_spec(sz, op, positions_of(obs(pre.enemies_seq())));
        let mv = moved_obs(pre.enemies_seq(), sz, p1);
        &&& post.size_spec() == sz
        &&& post.player_pos_spec() == p1
        &&& post.status_spec() == resolve_status(p1, mv)
        &&& obs(post.enemies_seq()) == (if hits_player(positions_of(mv), p1) {
            mv
        } else {
            survivors(mv, positions_of(mv))
        })
    }

    /// Builds an engine from a board size, a player actor and a row of enemy
    /// actors, ready to play. Construction is refused — with the offending
    /// coordinate and the violated bound — exactly when an actor's starting
    /// position lies off the board; the player is checked first, then the
    /// enemies in their order.
    #[verifier::loop_isolation(false)]
    pub fn new(size: Vec2, player: P, enemies: Vec<E>) -> (r: Result<Robots<P, E>, RobotsError>)
        ensures
            match r {
                Ok(g) => {
                    &&& in_bounds(player.pos_spec(), size)
                    &&& first_oob(enemies@, size) is None
                    &&& forall|i: int|
                        0 <= i < enemies@.len() ==> in_bounds(
                            (#[trigger] enemies@[i]).pos_spec(),
                            size,
                        )
                    &&& g.size_spec() == size
                    &&& g.player_actor() == player
                    &&& g.enemies_seq() == enemies@
                    &&& g.status_spec() == GameStatus::InProgress
                    &&& g.wf()
                },
                Err(e) => {
                    &&& (!in_bounds(player.pos_spec(), size) || first_oob(enemies@, size)
                        is Some)
                    &&& e == (RobotsError::InvalidPosition {
                        pos: if !in_bounds(player.pos_spec(), size) {
                            player.pos_spec()
                        } else {
                            first_oob(enemies@, size)->0
                        },
                        bound: size,
                    })
                },
            },
    {
        let pp = player.pos();
        if !pp.within(size) {
            return Err(RobotsError::InvalidPosition { pos: pp, bound: size });
        }
        proof {
            assert(enemies@.skip(0) =~= enemies@);
        }
        let mut i: usize = 0;
        while i < enemies.len()
            invariant
                i <= enemies@.len(),
                forall|j: int| 0 <= j < i ==> in_bounds((#[trigger] enemies@[j]).pos_spec(), size),
                first_oob(enemies@.skip(i as int), size) == first_oob(enemies@, size),
            decreases enemies@.len() - i,
        {
            let ep = enemies[i].pos();
            if !ep.within(size) {
                return Err(RobotsError::InvalidPosition { pos: ep, bound: size });
            }
            proof {
                assert(enemies@.skip(i as int).skip(1) =~= enemies@.skip(i as int + 1));
            }
            i += 1;
        }
        proof {
            assert(enemies@.skip(enemies@.len() as int) =~= Seq::<E>::empty());
        }
        Ok(Robots { size, player, enemies, status: GameStatus::InProgress })
    }

    /// The fixed board dimensions.
    pub fn size(&self) -> (r: Vec2)
        ensures
            r == self.size_spec(),
    {
        self.size
    }

    /// The current game status.
    pub fn status(&self) -> (r: GameStatus)
        ensures
            r == self.status_spec(),
    {
        self.status
    }

    /// Read-only cell query: reports the player, else the first enemy in the
    /// stable order standing on the cell, else an empty cell.
    #[verifier::loop_isolation(false)]
    pub fn at(&self, pos: Vec2) -> (r: CellStatus)
        ensures
            r == self.at_spec(pos),
    {
        if self.player.pos() == pos {
            return CellStatus::Player;
        }
        let ghost full = obs(self.enemies@);
        proof {
            assert(full.skip(0) =~= full);
        }
        let mut i: usize = 0;
        while i < self.enemies.len()
            invariant
                i <= self.enemies@.len(),
                first_enemy_at(full.skip(i as int), pos) == first_enemy_at(full, pos),
            decreases self.enemies@.len() - i,
        {
            let epos = self.enemies[i].pos();
            if epos == pos {
                return CellStatus::Enemy(self.enemies[i].id());
            }
            proof {
                assert(full.skip(i as int).skip(1) =~= full.skip(i as int + 1));
            }
            i += 1;
        }
        proof {
            assert(full.skip(full.len() as int) =~= Seq::<(u64, Vec2)>::empty());
        }
        CellStatus::Empty
    }

    /// The positions the enemy actors currently report, in their order.
    #[verifier::loop_isolation(false)]
    fn enemy_positions(&self) -> (r: Vec<Vec2>)
        ensures
            r@ == positions_of(obs(self.enemies@)),
    {
        let mut r: Vec<Vec2> = Vec::new();
        let mut i: usize = 0;
        while i < self.enemies.len()
            invariant
                i <= self.enemies@.len(),
                r@.len() == i,
                forall|j: int| 0 <= j < i ==> r@[j] == (#[trigger] self.enemies@[j]).pos_spec(),
            decreases self.enemies@.len() - i,
        {
            let p = self.enemies[i].pos();
            r.push(p);
            i += 1;
        }
        proof {
            assert(r@ =~= positions_of(obs(self.enemies@)));
        }
        r
    }

    /// Applies one full turn and returns the resulting status. A terminal
    /// game is left completely untouched. Otherwise the player actor moves
    /// first, every enemy actor then steps toward the player's new position
    /// in the stable order, and the collisions are resolved: an enemy on the
    /// player's cell loses the game, mutually colliding enemies are
    /// eliminated, and a board cleared of enemies wins. The operation is
    /// total: no command can fail.
    #[verifier::loop_isolation(false)]
    pub fn advance(&mut self, op: Operations) -> (r: GameStatus)
        ensures
            r == final(self).status_spec(),
            final(self).size_spec() == old(self).size_spec(),
            old(self).status_spec() != GameStatus::InProgress ==> *final(self) == *old(self),
            old(self).status_spec() == GameStatus::InProgress ==> Self::advance_rel(
                *old(self),
                *final(self),
                op,
            ),
            old(self).wf() ==> final(self).wf(),
            op == Operations::Wait ==> final(self).player_pos_spec() == old(
                self,
            ).player_pos_spec(),
            final(self).enemies_seq().len() <= old(self).enemies_seq().len(),
    {
        match self.status {
            GameStatus::InProgress => {}
            GameStatus::PlayerWon => {
                return self.status;
            }
            GameStatus::PlayerLost => {
                return self.status;
            }
        }
        let ghost pre_es: Seq<E> = self.enemies@;
        let eps = self.enemy_positions();
        self.player.next(self.size, op, &eps);
        let ppos = self.player.pos();
        let ghost gplayer: P = self.player;
        // Step every enemy toward the new player position, recording the new
        // positions and whether any enemy reached the player.
        let mut moved: Vec<E> = Vec::new();
        let mut all: Vec<Vec2> = Vec::new();
        let mut lost: bool = false;
        while self.enemies.len() > 0
            invariant
                self.size == old(self).size,
                self.status == GameStatus::InProgress,
                self.player == gplayer,
                moved@.len() + self.enemies@.len() == pre_es.len(),
                self.enemies@ == pre_es.skip(moved@.len() as int),
                all@.len() == moved@.len(),
                forall|j: int|
                    0 <= j < moved@.len() ==> {
                        &&& (#[trigger] moved@[j]).id_spec() == pre_es[j].id_spec()
                        &&& moved@[j].pos_spec() == pre_es[j].next_pos_spec(self.size, ppos)
                        &&& all@[j] == moved@[j].pos_spec()
                    },
                lost == exists|j: int| 0 <= j < moved@.len() && (#[trigger] moved@[j]).pos_spec() == ppos,
            decreases self.enemies@.len(),
        {
            let ghost k = moved@.len() as int;
            let ghost prev_moved = moved@;
            let ghost prev_lost = lost;
            let mut e = self.enemies.remove(0);
            e.next(self.size, ppos);
            let ghost ge: E = e;
            let epos = e.pos();
            if epos == ppos {
                lost = true;
            }
            all.push(epos);
            moved.push(e);
            proof {
                assert(self.enemies@ =~= pre_es.skip(k + 1));
                assert(moved@[k] == ge);
                assert(ge.pos_spec() == epos);
                assert(forall|j: int| 0 <= j < k ==> moved@[j] == prev_moved[j]);
                if prev_lost {
                    let j = choose|j: int|
                        0 <= j < prev_moved.len() && (#[trigger] prev_moved[j]).pos_spec() == ppos;
                    assert((#[trigger] moved@[j]).pos_spec() == ppos);
                } else if epos == ppos {
                    assert((#[trigger] moved@[k]).pos_spec() == ppos);
                } else {
                    assert(forall|j: int|
                        0 <= j < moved@.len() ==> (#[trigger] moved@[j]).pos_spec() != ppos);
                }
            }
        }
        self.enemies = moved;
        let ghost mv = moved_obs(pre_es, self.size, ppos);
        proof {
            assert(obs(self.enemies@) =~= mv);
            assert(all@ =~= positions_of(mv));
            if lost {
                let j = choose|j: int|
                    0 <= j < self.enemies@.len() && (#[trigger] self.enemies@[j]).pos_spec()
                        == ppos;
                assert(positions_of(mv)[j] == ppos);
            }
            if hits_player(positions_of(mv), ppos) {
                let j = choose|j: int|
                    0 <= j < positions_of(mv).len() && positions_of(mv)[j] == ppos;
                assert(self.enemies@[j].pos_spec() == ppos);
            }
            assert(lost == hits_player(positions_of(mv), ppos));
        }
        if lost {
            self.status = GameStatus::PlayerLost;
            return self.status;
        }
        // Mutual collisions: every enemy whose cell another enemy also
        // reached is eliminated; the rest survive in order.
        let ghost ms: Seq<E> = self.enemies@;
        let mut kept: Vec<E> = Vec::new();
        while self.enemies.len() > 0
            invariant
                self.size == old(self).size,
                self.status == GameStatus::InProgress,
                self.player == gplayer,
                self.enemies@.len() <= ms.len(),
                self.enemies@ == ms.skip((ms.len() - self.enemies@.len()) as int),
                obs(kept@) == survivors(
                    obs(ms).take((ms.len() - self.enemies@.len()) as int),
                    all@,
                ),
            decreases self.enemies@.len(),
        {
            let ghost k = (ms.len() - self.enemies@.len()) as int;
            let e = self.enemies.remove(0);
            let c = count_pos(&all, e.pos());
            proof {
                assert(self.enemies@ =~= ms.skip(k + 1));
                assert(obs(ms).take(k + 1).drop_last() =~= obs(ms).take(k));
            }
            if c == 1 {
                kept.push(e);
            }
            proof {
                assert(obs(kept@) =~= survivors(obs(ms).take(k + 1), all@));
            }
        }
        proof {
            assert(obs(ms).take(ms.len() as int) =~= obs(ms));
            lemma_survivors_are_moved(obs(ms), all@);
        }
        self.enemies = kept;
        if self.enemies.len() == 0 {
            self.status = GameStatus::PlayerWon;
        }
        self.status
    }
}

/// Counts how many recorded positions equal `p`.
#[verifier::loop_isolation(false)]
fn count_pos(v: &Vec<Vec2>, p: Vec2) -> (c: usize)
    ensures
        c == count_of(v@, p),
{
    let mut c: usize = 0;
    let mut i: usize = 0;
    while i < v.len()
        invariant
            i <= v@.len(),
            c <= i,
            c == count_of(v@.take(i as int), p),
        decreases v@.len() - i,
    {
        proof {
            assert(v@.take(i as int + 1).drop_last() =~= v@.take(i as int));
        }
        if v[i] == p {
            c += 1;
        }
        i += 1;
    }
    proof {
        assert(v@.take(v@.len() as int) =~= v@);
    }
    c
}

/// An enemy standing on the player's cell after the turn's moves loses the
/// game, overriding any simultaneous elimination of every other enemy.
pub proof fn lemma_contact_loses(p: Vec2, mv: Seq<(u64, Vec2)>)
    requires
        hits_player(positions_of(mv), p),
    ensures
        resolve_status(p, mv) == GameStatus::PlayerLost,
{
}

/// When no enemy reached the player and none survives the mutual
/// collisions, the turn ends with the game won.
pub proof fn lemma_cleared_board_wins(p: Vec2, mv: Seq<(u64, Vec2)>)
    requires
        !hits_player(positions_of(mv), p),
        survivors(mv, positions_of(mv)).len() == 0,
    ensures
        resolve_status(p, mv) == GameStatus::PlayerWon,
{
}

/// A `Wait` turn against default enemies cannot lose the game while every
/// enemy is at least two cells away on some axis, and the player does not
/// move.
pub proof fn lemma_wait_far_enemies_safe(p: Vec2, size: Vec2, es: Seq<(u64, Vec2)>)
    requires
        forall|i: int|
            0 <= i < es.len() ==> axis_dist((#[trigger] es[i]).1.x, p.x) > 1 || axis_dist(
                es[i].1.y,
                p.y,
            ) > 1,
    ensures
        player_step(p, size, Operations::Wait) == p,
        resolve_status(p, chase_all(es, p)) != GameStatus::PlayerLost,
{
    if hits_player(positions_of(chase_all(es, p)), p) {
        let i = choose|i: int|
            0 <= i < positions_of(chase_all(es, p)).len() && positions_of(chase_all(es, p))[i]
                == p;
        lemma_chase_contact(es[i].1, p);
        assert(false);
    }
}

/// An enemy already co-located with the player never escapes a `Wait` turn:
/// collision resolution still runs and the game is lost.
pub proof fn lemma_wait_colocated_resolves(p: Vec2, es: Seq<(u64, Vec2)>)
    requires
        exists|i: int| 0 <= i < es.len() && (#[trigger] es[i]).1 == p,
    ensures
        resolve_status(p, chase_all(es, p)) == GameStatus::PlayerLost,
{
    let i = choose|i: int| 0 <= i < es.len() && (#[trigger] es[i]).1 == p;
    lemma_chase_contact(es[i].1, p);
    assert(positions_of(chase_all(es, p))[i] == p);
}

/// For the default enemies the engine's moved row is exactly the greedy
/// chase of each recorded enemy toward the player.
pub proof fn lemma_default_enemies_move(es: Seq<SimpleEnemy>, size: Vec2, p: Vec2)
    ensures
        moved_obs(es, size, p) == chase_all(obs(es), p),
{
    assert(moved_obs(es, size, p) =~= chase_all(obs(es), p));
}

/// Elimination only removes: every survivor of the mutual collisions is one
/// of the moved enemies, so the row never grows.
pub proof fn lemma_survivors_are_moved(mv: Seq<(u64, Vec2)>, all: Seq<Vec2>)
    ensures
        survivors(mv, all).len() <= mv.len(),
        forall|k: int|
            0 <= k < survivors(mv, all).len() ==> exists|j: int|
                0 <= j < mv.len() && #[trigger] survivors(mv, all)[k] == mv[j],
    decreases mv.len(),
{
    if mv.len() == 0 {
    } else {
        lemma_survivors_are_moved(mv.drop_last(), all);
        let rest = survivors(mv.drop_last(), all);
        assert forall|k: int| 0 <= k < survivors(mv, all).len() implies exists|j: int|
            0 <= j < mv.len() && #[trigger] survivors(mv, all)[k] == mv[j] by {
            if k < rest.len() {
                assert(survivors(mv, all)[k] == rest[k]);
                let j = choose|j: int|
                    0 <= j < mv.drop_last().len() && #[trigger] rest[k] == mv.drop_last()[j];
                assert(mv.drop_last()[j] == mv[j]);
                assert(survivors(mv, all)[k] == mv[j]);
            } else {
                assert(survivors(mv, all)[k] == mv[mv.len() - 1]);
            }
        }
    }
}

/// A turn that empties the enemy collection without losing the game must
/// win it.
pub proof fn lemma_cleared_turn_wins<P: PlayerTrait, E: EnemyTrait>(
    pre: Robots<P, E>,
    post: Robots<P, E>,
    op: Operations,
)
    requires
        Robots::advance_rel(pre, post, op),
        post.enemies_seq().len() == 0,
        post.status_spec() != GameStatus::PlayerLost,
    ensures
        post.status_spec() == GameStatus::PlayerWon,
{
    assert(obs(post.enemies_seq()).len() == 0);
}

/// An enemy standing on the player's cell when the turn is over means the
/// turn was lost, whatever happened to every other enemy at the same time.
pub proof fn lemma_post_contact_is_lost<P: PlayerTrait, E: EnemyTrait>(
    pre: Robots<P, E>,
    post: Robots<P, E>,
    op: Operations,
)
    requires
        Robots::advance_rel(pre, post, op),
        exists|k: int|
            0 <= k < obs(post.enemies_seq()).len() && (#[trigger] obs(post.enemies_seq())[k]).1
                == post.player_pos_spec(),
    ensures
        post.status_spec() == GameStatus::PlayerLost,
{
    let sz = pre.size_spec();
    let p1 = pre.player_actor().next_pos_spec(sz, op, positions_of(obs(pre.enemies_seq())));
    let mv = moved_obs(pre.enemies_seq(), sz, p1);
    if !hits_player(positions_of(mv), p1) {
        lemma_survivors_are_moved(mv, positions_of(mv));
        let k = choose|k: int|
            0 <= k < obs(post.enemies_seq()).len() && (#[trigger] obs(post.enemies_seq())[k]).1
                == post.player_pos_spec();
        let j = choose|j: int|
            0 <= j < mv.len() && #[trigger] survivors(mv, positions_of(mv))[k] == mv[j];
        assert(positions_of(mv)[j] == p1);
        assert(false);
    }
}

/// The recorded enemy `item` is one of the pre-turn enemies of `pre_obs`,
/// identity kept, standing one greedy step from where it stood — so no
/// farther from the player at `p1` than before.
pub open spec fn moved_one_greedy_step(pre_obs: Seq<(u64, Vec2)>, item: (u64, Vec2), p1: Vec2) -> bool {
    exists|j: int|
        {
            &&& 0 <= j < pre_obs.len()
            &&& item.0 == (#[trigger] pre_obs[j]).0
            &&& item.1 == chase_step(pre_obs[j].1, p1)
            &&& manhattan(item.1, p1) <= manhattan(pre_obs[j].1, p1)
        }
}

/// Greedy pursuit never loses ground: after one in-progress turn against the
/// default enemies, every enemy still on the board is a pre-turn enemy with
/// its identity kept, standing one greedy step from where it stood — so its
/// Manhattan distance to the player's new position has not grown, and has
/// shrunk by one on each axis where it was positive.
pub proof fn lemma_turn_closes_distance<P: PlayerTrait>(
    pre: Robots<P, SimpleEnemy>,
    post: Robots<P, SimpleEnemy>,
    op: Operations,
)
    requires
        Robots::advance_rel(pre, post, op),
    ensures
        forall|k: int|
            0 <= k < obs(post.enemies_seq()).len() ==> moved_one_greedy_step(
                obs(pre.enemies_seq()),
                #[trigger] obs(post.enemies_seq())[k],
                post.player_pos_spec(),
            ),
{
    let sz = pre.size_spec();
    let p1 = pre.player_actor().next_pos_spec(sz, op, positions_of(obs(pre.enemies_seq())));
    let pre_obs = obs(pre.enemies_seq());
    let mv = moved_obs(pre.enemies_seq(), sz, p1);
    assert forall|k: int| 0 <= k < obs(post.enemies_seq()).len() implies moved_one_greedy_step(
        pre_obs,
        #[trigger] obs(post.enemies_seq())[k],
        post.player_pos_spec(),
    ) by {
        let item = obs(post.enemies_seq())[k];
        if hits_player(positions_of(mv), p1) {
            lemma_chase_closes(pre_obs[k].1, p1);
            assert(item == mv[k]);
            assert(0 <= k < pre_obs.len() && item.0 == pre_obs[k].0 && item.1 == chase_step(
                pre_obs[k].1,
                p1,
            ) && manhattan(item.1, p1) <= manhattan(pre_obs[k].1, p1));
        } else {
            lemma_survivors_are_moved(mv, positions_of(mv));
            let j = choose|j: int|
                0 <= j < mv.len() && #[trigger] survivors(mv, positions_of(mv))[k] == mv[j];
            lemma_chase_closes(pre_obs[j].1, p1);
            assert(0 <= j < pre_obs.len() && item.0 == pre_obs[j].0 && item.1 == chase_step(
                pre_obs[j].1,
                p1,
            ) && manhattan(item.1, p1) <= manhattan(pre_obs[j].1, p1));
        }
    }
}

/// A turn whose directional command points one step past a board edge leaves
/// the default player exactly where it stood.
pub proof fn lemma_boundary_turn<E: EnemyTrait>(
    pre: Robots<SimplePlayer, E>,
    post: Robots<SimplePlayer, E>,
    op: Operations,
)
    requires
        Robots::advance_rel(pre, post, op),
        ({
            let d = op_delta(op);
            ||| pre.player_pos_spec().x + d.0 < 0
            ||| pre.player_pos_spec().x + d.0 > pre.size_spec().x
            ||| pre.player_pos_spec().y + d.1 < 0
            ||| pre.player_pos_spec().y + d.1 > pre.size_spec().y
        }),
    ensures
        post.player_pos_spec() == pre.player_pos_spec(),
{
    lemma_boundary_clamp(pre.player_pos_spec(), pre.size_spec(), op);
}

/// A position that occurs in the row is counted at least once.
pub proof fn lemma_count_positive(ps: Seq<Vec2>, i: int)
    requires
        0 <= i < ps.len(),
    ensures
        count_of(ps, ps[i]) >= 1,
    decreases ps.len(),
{
    if i < ps.len() - 1 {
        lemma_count_positive(ps.drop_last(), i);
        assert(ps.drop_last()[i] == ps[i]);
    }
}

/// A position that occurs twice in the row is counted at least twice.
pub proof fn lemma_count_at_least_two(ps: Seq<Vec2>, i: int, j: int)
    requires
        0 <= i < j < ps.len(),
        ps[i] == ps[j],
    ensures
        count_of(ps, ps[i]) >= 2,
    decreases ps.len(),
{
    if j == ps.len() - 1 {
        lemma_count_positive(ps.drop_last(), i);
        assert(ps.drop_last()[i] == ps[i]);
    } else {
        lemma_count_at_least_two(ps.drop_last(), i, j);
        assert(ps.drop_last()[i] == ps[i]);
    }
}

/// Survivors stand on pairwise distinct cells, provided every position the
/// moved row repeats is counted at least twice in `all` — which holds when
/// `all` is exactly the row of moved positions.
pub proof fn lemma_survivors_distinct(mv: Seq<(u64, Vec2)>, all: Seq<Vec2>)
    requires
        forall|i: int, j: int|
            0 <= i < j < mv.len() && (#[trigger] mv[i]).1 == (#[trigger] mv[j]).1 ==> count_of(
                all,
                mv[i].1,
            ) >= 2,
    ensures
        forall|k1: int, k2: int|
            0 <= k1 < k2 < survivors(mv, all).len() ==> (#[trigger] survivors(mv, all)[k1]).1 != (
            #[trigger] survivors(mv, all)[k2]).1,
    decreases mv.len(),
{
    if mv.len() > 0 {
        assert(forall|i: int|
            0 <= i < mv.drop_last().len() ==> (#[trigger] mv.drop_last()[i]) == mv[i]);
        lemma_survivors_distinct(mv.drop_last(), all);
        let rest = survivors(mv.drop_last(), all);
        if count_of(all, mv.last().1) == 1 {
            lemma_survivors_are_moved(mv.drop_last(), all);
            assert forall|k: int| 0 <= k < rest.len() implies (#[trigger] rest[k]).1
                != mv.last().1 by {
                if rest[k].1 == mv.last().1 {
                    let j = choose|j: int|
                        0 <= j < mv.drop_last().len() && #[trigger] rest[k] == mv.drop_last()[j];
                    assert(mv[j].1 == mv[mv.len() - 1].1);
                    assert(count_of(all, mv[j].1) >= 2);
                    assert(false);
                }
            }
            assert(survivors(mv, all) == rest.push(mv.last()));
        }
    }
}

/// Between turns at most one actor stands on any cell: a turn that was not
/// lost leaves the surviving enemies on pairwise distinct cells, none of
/// them the player's.
pub proof fn lemma_between_turns_occupancy<P: PlayerTrait, E: EnemyTrait>(
    pre: Robots<P, E>,
    post: Robots<P, E>,
    op: Operations,
)
    requires
        Robots::advance_rel(pre, post, op),
        post.status_spec() != GameStatus::PlayerLost,
    ensures
        forall|k1: int, k2: int|
            0 <= k1 < k2 < obs(post.enemies_seq()).len() ==> (#[trigger] obs(
                post.enemies_seq(),
            )[k1]).1 != (#[trigger] obs(post.enemies_seq())[k2]).1,
        forall|k: int|
            0 <= k < obs(post.enemies_seq()).len() ==> (#[trigger] obs(post.enemies_seq())[k]).1
                != post.player_pos_spec(),
{
    let sz = pre.size_spec();
    let p1 = pre.player_actor().next_pos_spec(sz, op, positions_of(obs(pre.enemies_seq())));
    let mv = moved_obs(pre.enemies_seq(), sz, p1);
    let all = positions_of(mv);
    assert(!hits_player(all, p1));
    assert forall|i: int, j: int|
        0 <= i < j < mv.len() && (#[trigger] mv[i]).1 == (#[trigger] mv[j]).1 implies count_of(
        all,
        mv[i].1,
    ) >= 2 by {
        assert(all[i] == mv[i].1 && all[j] == mv[j].1);
        lemma_count_at_least_two(all, i, j);
    }
    lemma_survivors_distinct(mv, all);
    lemma_survivors_are_moved(mv, all);
    assert forall|k: int| 0 <= k < obs(post.enemies_seq()).len() implies (#[trigger] obs(
        post.enemies_seq(),
    )[k]).1 != post.player_pos_spec() by {
        if obs(post.enemies_seq())[k].1 == post.player_pos_spec() {
            let j = choose|j: int| 0 <= j < mv.len() && #[trigger] survivors(mv, all)[k] == mv[j];
            assert(all[j] == p1);
            assert(false);
        }
    }
}

/// A `Wait` turn of the default actors leaves the player where it stood and
/// cannot lose the game while every enemy is at least two cells away on some
/// axis.
pub proof fn lemma_wait_turn_safe(
    pre: Robots<SimplePlayer, SimpleEnemy>,
    post: Robots<SimplePlayer, SimpleEnemy>,
)
    requires
        Robots::advance_rel(pre, post, Operations::Wait),
        forall|i: int|
            0 <= i < obs(pre.enemies_seq()).len() ==> axis_dist(
                (#[trigger] obs(pre.enemies_seq())[i]).1.x,
                pre.player_pos_spec().x,
            ) > 1 || axis_dist(obs(pre.enemies_seq())[i].1.y, pre.player_pos_spec().y) > 1,
    ensures
        post.player_pos_spec() == pre.player_pos_spec(),
        post.status_spec() != GameStatus::PlayerLost,
{
    let sz = pre.size_spec();
    let p1 = pre.player_actor().next_pos_spec(
        sz,
        Operations::Wait,
        positions_of(obs(pre.enemies_seq())),
    );
    lemma_wait_keeps_player(pre.player_pos_spec(), sz);
    assert(p1 == pre.player_pos_spec());
    lemma_default_enemies_move(pre.enemies_seq(), sz, p1);
    lemma_wait_far_enemies_safe(p1, sz, obs(pre.enemies_seq()));
}

} // verus!
