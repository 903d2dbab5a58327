use librobots::{
    CellStatus, EnemyTrait, GameStatus, Operations, PlayerTrait, Robots, RobotsError, SimpleEnemy,
    SimplePlayer, Vec2,
};

fn game(
    w: u64,
    h: u64,
    px: u64,
    py: u64,
    enemies: Vec<SimpleEnemy>,
) -> Robots<SimplePlayer, SimpleEnemy> {
    Robots::new(Vec2::new(w, h), SimplePlayer::new(px, py), enemies).unwrap()
}

#[test]
fn vec2_arithmetic() {
    let a = Vec2::new(1, 2);
    let b = Vec2::new(3, 4);
    assert_eq!(a.add(b), Vec2 { x: 4, y: 6 });
    assert_eq!(b.sub(a), Vec2 { x: 2, y: 2 });
    assert!(Vec2::new(5, 5).within(Vec2::new(5, 5)));
    assert!(!Vec2::new(6, 5).within(Vec2::new(5, 5)));
    assert!(!Vec2::new(5, 6).within(Vec2::new(5, 5)));
}

#[test]
fn construction_reports_size_and_status() {
    let g = game(5, 5, 2, 2, vec![SimpleEnemy::new(0, 0)]);
    assert_eq!(g.size(), Vec2 { x: 5, y: 5 });
    assert_eq!(g.status(), GameStatus::InProgress);
    assert_eq!(g.at(Vec2::new(2, 2)), CellStatus::Player);
    assert_eq!(g.at(Vec2::new(0, 0)), CellStatus::Enemy(1));
    assert_eq!(g.at(Vec2::new(4, 4)), CellStatus::Empty);
}

#[test]
fn construction_rejects_player_off_board() {
    let r = Robots::<SimplePlayer, SimpleEnemy>::new(
        Vec2::new(5, 5),
        SimplePlayer::new(6, 0),
        Vec::new(),
    );
    assert_eq!(
        r.err().unwrap(),
        RobotsError::InvalidPosition { pos: Vec2 { x: 6, y: 0 }, bound: Vec2 { x: 5, y: 5 } }
    );
}

#[test]
fn construction_rejects_first_off_board_enemy() {
    let enemies = vec![SimpleEnemy::new(1, 1), SimpleEnemy::new(2, 9), SimpleEnemy::new(7, 9)];
    let r = Robots::new(Vec2::new(5, 5), SimplePlayer::new(2, 2), enemies);
    assert_eq!(
        r.err().unwrap(),
        RobotsError::InvalidPosition { pos: Vec2 { x: 2, y: 9 }, bound: Vec2 { x: 5, y: 5 } }
    );
}

#[test]
fn wait_pursuit_ends_in_loss() {
    // Board (5,5), player (2,2), one enemy from (0,0): the enemy closes
    // diagonally to (1,1), then reaches (2,2), and the loss is terminal.
    let mut g = game(5, 5, 2, 2, vec![SimpleEnemy::new(0, 0)]);
    assert_eq!(g.advance(Operations::Wait), GameStatus::InProgress);
    assert_eq!(g.at(Vec2::new(2, 2)), CellStatus::Player);
    assert_eq!(g.at(Vec2::new(1, 1)), CellStatus::Enemy(1));

    assert_eq!(g.advance(Operations::Wait), GameStatus::PlayerLost);
    assert_eq!(g.status(), GameStatus::PlayerLost);

    assert_eq!(g.advance(Operations::Wait), GameStatus::PlayerLost);
    assert_eq!(g.at(Vec2::new(2, 2)), CellStatus::Player);
    assert_eq!(g.at(Vec2::new(1, 1)), CellStatus::Empty);
}

#[test]
fn down_command_moves_player_then_enemy_follows() {
    // Board (5,5), player (2,2), enemy at (2,0): after Down the player is at
    // (2,3) and the enemy has stepped to (2,1).
    let mut g = game(5, 5, 2, 2, vec![SimpleEnemy::with_id(5, 2, 0)]);
    assert_eq!(g.advance(Operations::Down), GameStatus::InProgress);
    assert_eq!(g.at(Vec2::new(2, 3)), CellStatus::Player);
    assert_eq!(g.at(Vec2::new(2, 2)), CellStatus::Empty);
    assert_eq!(g.at(Vec2::new(2, 1)), CellStatus::Enemy(5));
}

#[test]
fn boundary_moves_are_refused_low() {
    let mut g = game(5, 5, 0, 0, vec![SimpleEnemy::new(4, 4)]);
    assert_eq!(g.advance(Operations::Left), GameStatus::InProgress);
    assert_eq!(g.at(Vec2::new(0, 0)), CellStatus::Player);
    assert_eq!(g.advance(Operations::Up), GameStatus::InProgress);
    assert_eq!(g.at(Vec2::new(0, 0)), CellStatus::Player);
    assert_eq!(g.advance(Operations::UpperLeft), GameStatus::InProgress);
    assert_eq!(g.at(Vec2::new(0, 0)), CellStatus::Player);
}

#[test]
fn boundary_moves_are_refused_high() {
    let mut g = game(5, 5, 5, 5, vec![SimpleEnemy::new(0, 0)]);
    assert_eq!(g.advance(Operations::Right), GameStatus::InProgress);
    assert_eq!(g.at(Vec2::new(5, 5)), CellStatus::Player);
    assert_eq!(g.advance(Operations::Down), GameStatus::InProgress);
    assert_eq!(g.at(Vec2::new(5, 5)), CellStatus::Player);
    assert_eq!(g.advance(Operations::LowerRight), GameStatus::InProgress);
    assert_eq!(g.at(Vec2::new(5, 5)), CellStatus::Player);
}

#[test]
fn diagonal_refusal_is_whole_not_partial() {
    // UpperRight from the top row would only be blocked vertically; the move
    // is still refused whole, not clamped to a sideways step.
    let mut g = game(5, 5, 2, 0, vec![SimpleEnemy::new(0, 4)]);
    assert_eq!(g.advance(Operations::UpperRight), GameStatus::InProgress);
    assert_eq!(g.at(Vec2::new(2, 0)), CellStatus::Player);
    assert_eq!(g.at(Vec2::new(3, 0)), CellStatus::Empty);
}

#[test]
fn warp_is_a_stand_still_for_the_default_player() {
    let mut g = game(5, 5, 2, 2, vec![SimpleEnemy::new(0, 4)]);
    assert_eq!(g.advance(Operations::Warp), GameStatus::InProgress);
    assert_eq!(g.at(Vec2::new(2, 2)), CellStatus::Player);
}

#[test]
fn zero_enemies_wins_on_first_turn() {
    let mut g = game(5, 5, 2, 2, Vec::new());
    assert_eq!(g.advance(Operations::Wait), GameStatus::PlayerWon);
    assert_eq!(g.at(Vec2::new(2, 2)), CellStatus::Player);
    // Terminal: further commands change nothing.
    assert_eq!(g.advance(Operations::Right), GameStatus::PlayerWon);
    assert_eq!(g.at(Vec2::new(2, 2)), CellStatus::Player);
    assert_eq!(g.at(Vec2::new(3, 2)), CellStatus::Empty);
}

#[test]
fn mutual_collision_clears_the_board_and_wins() {
    // Both enemies step onto (2,2) while the player waits at (3,3): the
    // pair eliminates itself and the board is cleared.
    let enemies = vec![SimpleEnemy::with_id(2, 1, 1), SimpleEnemy::with_id(3, 1, 1)];
    let mut g = game(5, 5, 3, 3, enemies);
    assert_eq!(g.advance(Operations::Wait), GameStatus::PlayerWon);
    assert_eq!(g.at(Vec2::new(2, 2)), CellStatus::Empty);
    assert_eq!(g.at(Vec2::new(3, 3)), CellStatus::Player);
}

#[test]
fn partial_elimination_leaves_survivor() {
    let enemies = vec![
        SimpleEnemy::with_id(2, 1, 1),
        SimpleEnemy::with_id(3, 1, 1),
        SimpleEnemy::with_id(4, 9, 9),
    ];
    let mut g = game(9, 9, 5, 5, enemies);
    assert_eq!(g.advance(Operations::Wait), GameStatus::InProgress);
    assert_eq!(g.at(Vec2::new(2, 2)), CellStatus::Empty);
    assert_eq!(g.at(Vec2::new(8, 8)), CellStatus::Enemy(4));
    assert_eq!(g.at(Vec2::new(5, 5)), CellStatus::Player);
}

#[test]
fn contact_overrides_simultaneous_elimination() {
    // Both enemies land on the player's cell: they would also have collided
    // with each other, but reaching the player decides the turn.
    let enemies = vec![SimpleEnemy::with_id(2, 1, 1), SimpleEnemy::with_id(3, 3, 3)];
    let mut g = game(5, 5, 2, 2, enemies);
    assert_eq!(g.advance(Operations::Wait), GameStatus::PlayerLost);
    assert_eq!(g.at(Vec2::new(2, 2)), CellStatus::Player);
    // Terminal: the lost position is frozen.
    assert_eq!(g.advance(Operations::Up), GameStatus::PlayerLost);
    assert_eq!(g.at(Vec2::new(2, 2)), CellStatus::Player);
}

#[test]
fn colocated_enemy_resolves_on_wait() {
    // An enemy constructed on the player's cell stays there through a Wait
    // turn and the collision resolves as a loss.
    let mut g = game(5, 5, 2, 2, vec![SimpleEnemy::new(2, 2)]);
    assert_eq!(g.advance(Operations::Wait), GameStatus::PlayerLost);
}

#[test]
fn greedy_chase_closes_each_axis_by_one() {
    // Enemy (0,0), player (3,1): one Wait turn moves the enemy to (1,1) —
    // Manhattan distance falls from 4 to 2, one per differing axis, and the
    // level axis stays level.
    let mut g = game(5, 5, 3, 1, vec![SimpleEnemy::new(0, 0)]);
    assert_eq!(g.advance(Operations::Wait), GameStatus::InProgress);
    assert_eq!(g.at(Vec2::new(1, 1)), CellStatus::Enemy(1));
    assert_eq!(g.advance(Operations::Wait), GameStatus::InProgress);
    assert_eq!(g.at(Vec2::new(2, 1)), CellStatus::Enemy(1));
}

#[test]
fn simple_player_moves_and_clamps() {
    let size = Vec2::new(5, 5);
    let none: Vec<Vec2> = Vec::new();
    let mut p = SimplePlayer::new(2, 2);
    p.next(size, Operations::Down, &none);
    assert_eq!(p.pos(), Vec2 { x: 2, y: 3 });
    p.next(size, Operations::UpperLeft, &none);
    assert_eq!(p.pos(), Vec2 { x: 1, y: 2 });
    p.next(size, Operations::Wait, &none);
    assert_eq!(p.pos(), Vec2 { x: 1, y: 2 });
    let mut q = SimplePlayer::new(0, 5);
    q.next(size, Operations::LowerLeft, &none);
    assert_eq!(q.pos(), Vec2 { x: 0, y: 5 });
}

#[test]
fn simple_enemy_reports_identity_and_chases() {
    let size = Vec2::new(9, 9);
    let mut e = SimpleEnemy::with_id(7, 4, 6);
    assert_eq!(e.id(), 7);
    assert_eq!(e.pos(), Vec2 { x: 4, y: 6 });
    e.next(size, Vec2::new(2, 6));
    assert_eq!(e.pos(), Vec2 { x: 3, y: 6 });
    e.next(size, Vec2::new(3, 9));
    assert_eq!(e.pos(), Vec2 { x: 3, y: 7 });
    assert_eq!(e.id(), 7);
    assert_eq!(SimpleEnemy::new(1, 2).id(), 1);
}
