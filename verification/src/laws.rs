//! The laws the library states of itself, each proved over the tick
//! specification that `SnakeGame::update` is verified against.

use vstd::prelude::*;

use crate::engine::{
    board_full, eats1, eats2, fatal1, fatal2, lemma_hits_is_contains, lemma_moved_body_cells,
    lemma_moved_body_ok, moved1, moved2, new_head1, new_head2, tick_view, wf, GameView,
};
use crate::geometry::{in_bounds, opposite, Direction, Pos};
use crate::input::steer_view;

verus! {

/// Validity of an apple oracle's choice for one tick: when a snake eats
/// and the field is not covered, the choice is a cell on the field and off
/// both moved snakes.
pub open spec fn fresh_ok(g: GameView, fresh: Pos) -> bool {
    (eats1(g) || eats2(g)) && !board_full(moved1(g), moved2(g)) ==> in_bounds(fresh)
        && !moved1(g).contains(fresh) && !moved2(g).contains(fresh)
}

/// Invariant preservation: one tick of a live, well-formed game, with a
/// valid apple choice, yields a well-formed state — each snake keeps
/// distinct cells that all lie on the field, and while the game runs the
/// apple lies on no snake cell.
pub proof fn lemma_tick_preserves_invariant(g: GameView, fresh: Pos)
    requires
        wf(g),
        !g.game_over,
        fresh_ok(g, fresh),
    ensures
        wf(tick_view(g, fresh)),
{
    if !fatal1(g) && !fatal2(g) {
        let h1 = new_head1(g);
        let h2 = new_head2(g);
        lemma_hits_is_contains(g.snake1, h1);
        lemma_hits_is_contains(g.snake2, h1);
        lemma_hits_is_contains(g.snake1, h2);
        lemma_hits_is_contains(g.snake2, h2);
        lemma_moved_body_ok(g.snake1, h1, eats1(g));
        lemma_moved_body_ok(g.snake2, h2, eats2(g));
        lemma_moved_body_cells(g.snake1, h1, eats1(g), g.apple);
        lemma_moved_body_cells(g.snake2, h2, eats2(g), g.apple);
    }
}

/// Length conservation: on a non-fatal tick a snake's length grows by one
/// exactly when it eats the apple and is unchanged otherwise; on a fatal
/// tick no snake advances at all.
pub proof fn lemma_length_conservation(g: GameView, fresh: Pos)
    requires
        wf(g),
        !g.game_over,
    ensures
        !fatal1(g) && !fatal2(g) ==> tick_view(g, fresh).snake1.len() == g.snake1.len() + (
        if eats1(g) {
            1int
        } else {
            0int
        }),
        !fatal1(g) && !fatal2(g) ==> tick_view(g, fresh).snake2.len() == g.snake2.len() + (
        if eats2(g) {
            1int
        } else {
            0int
        }),
        fatal1(g) || fatal2(g) ==> tick_view(g, fresh).snake1 == g.snake1 && tick_view(
            g,
            fresh,
        ).snake2 == g.snake2,
{
    if !fatal1(g) && !fatal2(g) {
        g.snake1.insert_ensures(0, new_head1(g));
        g.snake2.insert_ensures(0, new_head2(g));
    }
}

/// Reversal rejection: the exact opposite of a player's current direction
/// is discarded and the state unchanged; any other request, the current
/// direction itself included, is adopted and nothing else changes.
pub proof fn lemma_reversal_rejection(g: GameView, player: u8, req: Direction)
    ensures
        player == 1 && req == opposite(g.direction1) ==> steer_view(g, player, req) == g,
        player == 2 && req == opposite(g.direction2) ==> steer_view(g, player, req) == g,
        player == 1 && req != opposite(g.direction1) ==> steer_view(g, player, req) == (GameView {
            direction1: req,
            ..g
        }),
        player == 2 && req != opposite(g.direction2) ==> steer_view(g, player, req) == (GameView {
            direction2: req,
            ..g
        }),
        player != 1 && player != 2 ==> steer_view(g, player, req) == g,
{
}

/// Determinism modulo apple randomness: two ticks from one state agree on
/// the snakes, the directions, the flags and the outcome whatever cell the
/// oracle chooses, and agree completely when it chooses the same cell.
pub proof fn lemma_tick_deterministic(g: GameView, fresh1: Pos, fresh2: Pos)
    ensures
        tick_view(g, fresh1).snake1 == tick_view(g, fresh2).snake1,
        tick_view(g, fresh1).snake2 == tick_view(g, fresh2).snake2,
        tick_view(g, fresh1).direction1 == tick_view(g, fresh2).direction1,
        tick_view(g, fresh1).direction2 == tick_view(g, fresh2).direction2,
        tick_view(g, fresh1).game_over == tick_view(g, fresh2).game_over,
        tick_view(g, fresh1).winner == tick_view(g, fresh2).winner,
        tick_view(g, fresh1).crashed1 == tick_view(g, fresh2).crashed1,
        tick_view(g, fresh1).crashed2 == tick_view(g, fresh2).crashed2,
        fresh1 == fresh2 ==> tick_view(g, fresh1) == tick_view(g, fresh2),
{
}

/// One scheduler step: both players' pending requests are applied with
/// reversal rejection, then the engine ticks with the oracle's cell —
/// unless the game has already ended, in which case the state is frozen.
pub open spec fn run_step(g: GameView, req1: Direction, req2: Direction, fresh: Pos) -> GameView {
    if g.game_over {
        g
    } else {
        tick_view(steer_view(steer_view(g, 1u8, req1), 2u8, req2), fresh)
    }
}

/// A whole run from `g`: one entry per tick, holding the two requested
/// directions and the oracle's cell for that tick.
pub open spec fn run_view(g: GameView, steps: Seq<(Direction, Direction, Pos)>) -> GameView
    decreases steps.len(),
{
    if steps.len() == 0 {
        g
    } else {
        run_view(run_step(g, steps[0].0, steps[0].1, steps[0].2), steps.drop_first())
    }
}

/// Validity of a whole oracle: at each step taken from a live state, the
/// oracle's cell is a valid apple choice for the state the tick sees.
pub open spec fn steps_ok(g: GameView, steps: Seq<(Direction, Direction, Pos)>) -> bool
    decreases steps.len(),
{
    steps.len() == 0 || {
        &&& (!g.game_over ==> fresh_ok(
            steer_view(steer_view(g, 1u8, steps[0].0), 2u8, steps[0].1),
            steps[0].2,
        ))
        &&& steps_ok(run_step(g, steps[0].0, steps[0].1, steps[0].2), steps.drop_first())
    }
}

/// The invariant holds at every tick boundary: a well-formed state, run
/// for any number of steps under a valid oracle, stays well formed.
pub proof fn lemma_run_preserves_invariant(g: GameView, steps: Seq<(Direction, Direction, Pos)>)
    requires
        wf(g),
        steps_ok(g, steps),
    ensures
        wf(run_view(g, steps)),
    decreases steps.len(),
{
    if steps.len() > 0 {
        let g1 = steer_view(steer_view(g, 1u8, steps[0].0), 2u8, steps[0].1);
        if !g.game_over {
            assert(wf(g1));
            lemma_tick_preserves_invariant(g1, steps[0].2);
        }
        lemma_run_preserves_invariant(
            run_step(g, steps[0].0, steps[0].1, steps[0].2),
            steps.drop_first(),
        );
    }
}

/// Determinism of a whole run: the trajectory's end is a function of the
/// initial state, the direction requests and the apple oracle alone —
/// equal histories give equal final states.
pub proof fn lemma_run_deterministic(
    g1: GameView,
    g2: GameView,
    steps1: Seq<(Direction, Direction, Pos)>,
    steps2: Seq<(Direction, Direction, Pos)>,
)
    requires
        g1 == g2,
        steps1 == steps2,
    ensures
        run_view(g1, steps1) == run_view(g2, steps2),
{
}

} // verus!
