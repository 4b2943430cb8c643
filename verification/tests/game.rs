use snake_game::engine::SnakeGame;
use snake_game::geometry::{Direction, Pos, HEIGHT, WIDTH};

fn pos(x: u16, y: u16) -> Pos {
    Pos { x, y }
}

fn game(snake1: Vec<Pos>, snake2: Vec<Pos>, apple: Pos, d1: Direction, d2: Direction) -> SnakeGame {
    SnakeGame {
        snake1,
        snake2,
        apple,
        direction1: d1,
        direction2: d2,
        game_over: false,
        winner: None,
        crashed1: false,
        crashed2: false,
    }
}

fn on_either(g: &SnakeGame, p: Pos) -> bool {
    g.snake1.contains(&p) || g.snake2.contains(&p)
}

#[test]
fn new_game_initial_state() {
    let g = SnakeGame::new();
    assert_eq!(g.snake1, vec![pos(10, 5)]);
    assert_eq!(g.snake2, vec![pos(8, 5)]);
    assert_eq!(g.direction1, Direction::Right);
    assert_eq!(g.direction2, Direction::Left);
    assert!(!g.game_over);
    assert_eq!(g.winner, None);
    assert!(!g.crashed1 && !g.crashed2);
    assert!(g.apple.x < WIDTH && g.apple.y < HEIGHT);
    assert!(!on_either(&g, g.apple));
    assert!(g.is_well_formed());
}

#[test]
fn tick_moves_right_until_wall() {
    // One snake runs for the right wall on row 5, the other runs along row
    // 9 and outlives it; the apple sits out of both paths.
    let mut g = game(
        vec![pos(10, 5)],
        vec![pos(0, 9)],
        pos(0, 0),
        Direction::Right,
        Direction::Right,
    );
    for i in 1..=9u16 {
        g.update();
        assert!(!g.game_over);
        assert_eq!(g.snake1, vec![pos(10 + i, 5)]);
        assert_eq!(g.snake2, vec![pos(i, 9)]);
    }
    // The head now sits at x = 19; one more step would leave the field.
    g.update();
    assert!(g.game_over);
    assert!(g.crashed1);
    assert!(!g.crashed2);
    assert_eq!(g.winner, Some(2));
    // No snake advances on a fatal tick.
    assert_eq!(g.snake1, vec![pos(19, 5)]);
    assert_eq!(g.snake2, vec![pos(9, 9)]);
}

#[test]
fn adjacent_heads_swap_is_fatal_for_both() {
    // Each candidate head lands exactly on the other snake's pre-move
    // cell, so both crash at once; equal lengths tie.
    let mut g = game(
        vec![pos(5, 5)],
        vec![pos(6, 5)],
        pos(0, 0),
        Direction::Right,
        Direction::Left,
    );
    g.update();
    assert!(g.game_over);
    assert!(g.crashed1 && g.crashed2);
    assert_eq!(g.winner, Some(0));
    assert_eq!(g.snake1, vec![pos(5, 5)]);
    assert_eq!(g.snake2, vec![pos(6, 5)]);
}

#[test]
fn collision_check_uses_pre_move_cells() {
    // With one free cell between the heads, both candidate heads land on
    // that cell. Neither lies on a pre-move body, so no collision occurs,
    // even though the snakes now share a cell.
    let mut g = game(
        vec![pos(4, 5)],
        vec![pos(6, 5)],
        pos(0, 0),
        Direction::Right,
        Direction::Left,
    );
    g.update();
    assert!(!g.game_over);
    assert_eq!(g.snake1, vec![pos(5, 5)]);
    assert_eq!(g.snake2, vec![pos(5, 5)]);
}

#[test]
fn both_snakes_eat_the_same_apple() {
    // Both candidate heads land on the apple cell in one tick: both grow
    // by one, and the apple is regenerated at a free cell.
    let mut g = game(
        vec![pos(4, 5)],
        vec![pos(6, 5)],
        pos(5, 5),
        Direction::Right,
        Direction::Left,
    );
    g.update();
    assert!(!g.game_over);
    assert_eq!(g.snake1, vec![pos(5, 5), pos(4, 5)]);
    assert_eq!(g.snake2, vec![pos(5, 5), pos(6, 5)]);
    assert!(g.apple.x < WIDTH && g.apple.y < HEIGHT);
    assert!(!on_either(&g, g.apple));
    assert!(g.is_well_formed());
}

#[test]
fn eating_grows_by_one_and_others_stay() {
    let mut g = game(
        vec![pos(4, 5)],
        vec![pos(0, 0)],
        pos(5, 5),
        Direction::Right,
        Direction::Down,
    );
    g.update();
    assert!(!g.game_over);
    // The eater grows by exactly one; the other snake keeps its length.
    assert_eq!(g.snake1, vec![pos(5, 5), pos(4, 5)]);
    assert_eq!(g.snake2, vec![pos(0, 1)]);
    assert!(!on_either(&g, g.apple));
}

#[test]
fn length_constant_without_eating() {
    let mut g = game(
        vec![pos(4, 5), pos(3, 5)],
        vec![pos(0, 0)],
        pos(19, 9),
        Direction::Right,
        Direction::Down,
    );
    g.update();
    assert_eq!(g.snake1, vec![pos(5, 5), pos(4, 5)]);
    assert_eq!(g.snake2, vec![pos(0, 1)]);
    assert_eq!(g.apple, pos(19, 9));
}

#[test]
fn wall_crash_of_one_snake_gives_the_other_the_win() {
    let mut g = game(
        vec![pos(19, 2)],
        vec![pos(5, 5)],
        pos(0, 0),
        Direction::Right,
        Direction::Left,
    );
    g.update();
    assert!(g.game_over);
    assert!(g.crashed1);
    assert!(!g.crashed2);
    assert_eq!(g.winner, Some(2));
}

#[test]
fn simultaneous_crash_longer_snake_wins() {
    // Snake 1 hits the right wall while snake 2, a single cell moving up
    // at the top edge, clamps onto its own cell; snake 1 is longer.
    let mut g = game(
        vec![pos(19, 5), pos(18, 5)],
        vec![pos(0, 0)],
        pos(3, 3),
        Direction::Right,
        Direction::Up,
    );
    g.update();
    assert!(g.game_over);
    assert!(g.crashed1 && g.crashed2);
    assert_eq!(g.winner, Some(1));
}

#[test]
fn clamped_move_at_zero_hits_own_cell() {
    // Moving up at the top edge keeps the coordinate at zero, so the
    // candidate head lands on the snake's own cell: a self-collision, not
    // a boundary breach.
    let mut g = game(
        vec![pos(3, 0)],
        vec![pos(10, 9)],
        pos(0, 5),
        Direction::Up,
        Direction::Left,
    );
    g.update();
    assert!(g.game_over);
    assert!(g.crashed1);
    assert!(!g.crashed2);
    assert_eq!(g.winner, Some(2));
}

#[test]
fn running_into_own_body_is_fatal() {
    // A snake curled into a hook turns left into its own body.
    let mut g = game(
        vec![pos(5, 5), pos(5, 4), pos(4, 4), pos(4, 5), pos(4, 6)],
        vec![pos(15, 8)],
        pos(0, 0),
        Direction::Left,
        Direction::Right,
    );
    g.update();
    assert!(g.game_over);
    assert!(g.crashed1);
    assert_eq!(g.winner, Some(2));
}

#[test]
fn reversal_is_rejected_and_other_turns_accepted() {
    let mut g = game(
        vec![pos(10, 5)],
        vec![pos(8, 5)],
        pos(0, 0),
        Direction::Right,
        Direction::Left,
    );
    // The exact opposite is discarded.
    g.change_direction(1, Direction::Left);
    assert_eq!(g.direction1, Direction::Right);
    g.change_direction(2, Direction::Right);
    assert_eq!(g.direction2, Direction::Left);
    // The two side turns and the same direction are adopted.
    g.change_direction(1, Direction::Up);
    assert_eq!(g.direction1, Direction::Up);
    g.change_direction(1, Direction::Up);
    assert_eq!(g.direction1, Direction::Up);
    g.change_direction(1, Direction::Right);
    assert_eq!(g.direction1, Direction::Right);
    g.change_direction(2, Direction::Down);
    assert_eq!(g.direction2, Direction::Down);
    // An unknown player number changes nothing.
    g.change_direction(3, Direction::Up);
    assert_eq!(g.direction1, Direction::Right);
    assert_eq!(g.direction2, Direction::Down);
}

#[test]
fn identical_runs_give_identical_trajectories() {
    // Two games from one state, driven by one direction sequence, with the
    // apple out of reach: every step of the trajectories agrees.
    let start = || {
        game(
            vec![pos(10, 5)],
            vec![pos(8, 5)],
            pos(0, 0),
            Direction::Right,
            Direction::Left,
        )
    };
    let mut a = start();
    let mut b = start();
    let turns: Vec<(u8, Direction)> = vec![
        (1, Direction::Up),
        (2, Direction::Down),
        (1, Direction::Left),
        (2, Direction::Right),
    ];
    for (player, dir) in turns {
        a.update();
        b.update();
        a.change_direction(player, dir);
        b.change_direction(player, dir);
        assert_eq!(a.snake1, b.snake1);
        assert_eq!(a.snake2, b.snake2);
        assert_eq!(a.direction1, b.direction1);
        assert_eq!(a.direction2, b.direction2);
        assert_eq!(a.game_over, b.game_over);
        assert_eq!(a.winner, b.winner);
        assert_eq!(a.apple, b.apple);
        assert!(!a.game_over);
    }
}

#[test]
fn invariant_holds_at_every_tick_boundary() {
    let mut g = game(
        vec![pos(2, 5)],
        vec![pos(0, 9)],
        pos(5, 5),
        Direction::Right,
        Direction::Right,
    );
    for _ in 0..12 {
        if g.game_over {
            break;
        }
        g.update();
        assert!(g.is_well_formed());
    }
}

#[test]
fn generated_apple_lands_on_the_only_free_cell() {
    // The two snakes cover every cell but one; the apple must land there,
    // whatever the random draws do.
    let mut snake1: Vec<Pos> = Vec::new();
    let mut snake2: Vec<Pos> = Vec::new();
    for y in 0..HEIGHT {
        for x in 0..WIDTH {
            if y < 5 {
                snake1.push(pos(x, y));
            } else if !(x == WIDTH - 1 && y == HEIGHT - 1) {
                snake2.push(pos(x, y));
            }
        }
    }
    let apple = SnakeGame::generate_apple(&snake1, &snake2);
    assert_eq!(apple, pos(WIDTH - 1, HEIGHT - 1));
}

#[test]
fn generated_apple_avoids_both_snakes() {
    let snake1 = vec![pos(10, 5), pos(10, 6), pos(11, 6)];
    let snake2 = vec![pos(0, 0), pos(1, 0)];
    for _ in 0..50 {
        let apple = SnakeGame::generate_apple(&snake1, &snake2);
        assert!(apple.x < WIDTH && apple.y < HEIGHT);
        assert!(!snake1.contains(&apple));
        assert!(!snake2.contains(&apple));
    }
}

#[test]
fn field_filled_by_growth_ends_the_game() {
    // Both snakes eat the last free cell in the same tick; the moved
    // snakes then cover the whole field, no cell can take a new apple,
    // and the game ends with no winner declared.
    let apple = pos(0, 5);
    let mut snake1 = vec![pos(0, 4)];
    for y in 0..5u16 {
        for x in 0..WIDTH {
            if !(x == 0 && y == 4) {
                snake1.push(pos(x, y));
            }
        }
    }
    let mut snake2 = vec![pos(1, 5)];
    for y in 5..HEIGHT {
        for x in 0..WIDTH {
            if !(x == 1 && y == 5) && !(x == 0 && y == 5) {
                snake2.push(pos(x, y));
            }
        }
    }
    let mut g = game(snake1, snake2, apple, Direction::Down, Direction::Left);
    assert!(g.is_well_formed());
    let len1 = g.snake1.len();
    let len2 = g.snake2.len();
    g.update();
    assert!(g.game_over);
    assert_eq!(g.winner, None);
    assert!(!g.crashed1 && !g.crashed2);
    assert_eq!(g.snake1.len(), len1 + 1);
    assert_eq!(g.snake2.len(), len2 + 1);
    assert_eq!(g.snake1[0], pos(0, 5));
    assert_eq!(g.snake2[0], pos(0, 5));
    assert_eq!(g.apple, pos(0, 5));
    assert!(g.is_well_formed());
}

#[test]
fn well_formedness_check_rejects_bad_states() {
    let good = game(
        vec![pos(10, 5)],
        vec![pos(8, 5)],
        pos(0, 0),
        Direction::Right,
        Direction::Left,
    );
    assert!(good.is_well_formed());

    let mut dup = game(
        vec![pos(10, 5), pos(10, 5)],
        vec![pos(8, 5)],
        pos(0, 0),
        Direction::Right,
        Direction::Left,
    );
    assert!(!dup.is_well_formed());
    dup.snake1.pop();
    assert!(dup.is_well_formed());

    let apple_on_snake = game(
        vec![pos(10, 5)],
        vec![pos(8, 5)],
        pos(8, 5),
        Direction::Right,
        Direction::Left,
    );
    assert!(!apple_on_snake.is_well_formed());

    let off_field = game(
        vec![pos(WIDTH, 5)],
        vec![pos(8, 5)],
        pos(0, 0),
        Direction::Right,
        Direction::Left,
    );
    assert!(!off_field.is_well_formed());

    let mut empty_snake = game(
        vec![pos(10, 5)],
        vec![pos(8, 5)],
        pos(0, 0),
        Direction::Right,
        Direction::Left,
    );
    empty_snake.snake2.clear();
    assert!(!empty_snake.is_well_formed());
}
