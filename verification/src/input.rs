//! The input mapper: key presses become direction changes, with illegal
//! reversals rejected, or a request to quit.

use vstd::prelude::*;

use crate::engine::{GameView, SnakeGame};
use crate::geometry::{is_opposite, opposite, Direction};

verus! {

/// A key press, as the input mapper reads it: an arrow key or a character
/// key.
#[derive(Clone, Copy, PartialEq, Eq, Structural, Debug)]
pub enum KeyInput {
    ArrowUp,
    ArrowDown,
    ArrowLeft,
    ArrowRight,
    Letter(char),
}

/// What a key press asks of the game.
#[derive(Clone, Copy, PartialEq, Eq, Structural, Debug)]
pub enum Intent {
    Steer(u8, Direction),
    Quit,
    Ignore,
}

/// The fixed key layout: the arrows steer player 1, the letters w, a, s
/// and d steer player 2, the letter q quits, and any other key is ignored.
pub open spec fn key_intent(k: KeyInput) -> Intent {
    match k {
        KeyInput::ArrowUp => Intent::Steer(1u8, Direction::Up),
        KeyInput::ArrowDown => Intent::Steer(1u8, Direction::Down),
        KeyInput::ArrowLeft => Intent::Steer(1u8, Direction::Left),
        KeyInput::ArrowRight => Intent::Steer(1u8, Direction::Right),
        KeyInput::Letter(c) => if c == 'w' {
            Intent::Steer(2u8, Direction::Up)
        } else if c == 's' {
            Intent::Steer(2u8, Direction::Down)
        } else if c == 'a' {
            Intent::Steer(2u8, Direction::Left)
        } else if c == 'd' {
            Intent::Steer(2u8, Direction::Right)
        } else if c == 'q' {
            Intent::Quit
        } else {
            Intent::Ignore
        },
    }
}

/// Translate one key press into its intent under the fixed key layout.
pub fn map_key(k: KeyInput) -> (r: Intent)
    ensures
        r == key_intent(k),
{
    match k {
        KeyInput::ArrowUp => Intent::Steer(1, Direction::Up),
        KeyInput::ArrowDown => Intent::Steer(1, Direction::Down),
        KeyInput::ArrowLeft => Intent::Steer(1, Direction::Left),
        KeyInput::ArrowRight => Intent::Steer(1, Direction::Right),
        KeyInput::Letter(c) => {
            if c == 'w' {
                Intent::Steer(2, Direction::Up)
            } else if c == 's' {
                Intent::Steer(2, Direction::Down)
            } else if c == 'a' {
                Intent::Steer(2, Direction::Left)
            } else if c == 'd' {
                Intent::Steer(2, Direction::Right)
            } else if c == 'q' {
                Intent::Quit
            } else {
                Intent::Ignore
            }
        },
    }
}

/// The state after one steering request: the named player's direction
/// becomes the requested one unless the request is the exact reversal of
/// that player's current direction, which is discarded; requests for an
/// unknown player change nothing.
pub open spec fn steer_view(g: GameView, player: u8, req: Direction) -> GameView {
    if player == 1 && req != opposite(g.direction1) {
        GameView { direction1: req, ..g }
    } else if player == 2 && req != opposite(g.direction2) {
        GameView { direction2: req, ..g }
    } else {
        g
    }
}

/// The state after one intent: steering steers, quitting raises the
/// terminal flag and declares no winner, anything else changes nothing.
pub open spec fn apply_intent(g: GameView, it: Intent) -> GameView {
    match it {
        Intent::Steer(player, req) => steer_view(g, player, req),
        Intent::Quit => GameView { game_over: true, ..g },
        Intent::Ignore => g,
    }
}

impl SnakeGame {
    /// Request a direction change for one player, rejecting the exact
    /// reversal of that player's current direction.
    pub fn change_direction(&mut self, player: u8, new_dir: Direction)
        ensures
            final(self)@ == steer_view(old(self)@, player, new_dir),
    {
        if player == 1 {
            if !is_opposite(self.direction1, new_dir) {
                self.direction1 = new_dir;
            }
        } else if player == 2 {
            if !is_opposite(self.direction2, new_dir) {
                self.direction2 = new_dir;
            }
        }
        proof {
            assert(self@ =~= steer_view(old(self)@, player, new_dir));
        }
    }

    /// Apply one key press under the fixed key layout: steer with reversal
    /// rejection, quit, or do nothing.
    pub fn apply_key(&mut self, k: KeyInput)
        ensures
            final(self)@ == apply_intent(old(self)@, key_intent(k)),
    {
        match map_key(k) {
            Intent::Steer(player, dir) => {
                self.change_direction(player, dir);
            },
            Intent::Quit => {
                self.game_over = true;
                proof {
                    assert(self@ =~= apply_intent(old(self)@, key_intent(k)));
                }
            },
            Intent::Ignore => {},
        }
    }
}

} // verus!
