//! The game state and the tick engine: movement, collisions, growth and
//! the apple.

use vstd::prelude::*;

use crate::geometry::{in_bounds, step_cell, step_x, step_y, Direction, Pos, HEIGHT, WIDTH};
use rand::Rng;

verus! {

/// The whole state of a running game.
pub struct SnakeGame {
    pub snake1: Vec<Pos>,
    pub snake2: Vec<Pos>,
    pub apple: Pos,
    pub direction1: Direction,
    pub direction2: Direction,
    pub game_over: bool,
    pub winner: Option<u8>,
    pub crashed1: bool,
    pub crashed2: bool,
}

/// The mathematical image of a game state.
#[verifier::ext_equal]
pub struct GameView {
    pub snake1: Seq<Pos>,
    pub snake2: Seq<Pos>,
    pub apple: Pos,
    pub direction1: Direction,
    pub direction2: Direction,
    pub game_over: bool,
    pub winner: Option<u8>,
    pub crashed1: bool,
    pub crashed2: bool,
}

impl View for SnakeGame {
    type V = GameView;

    open spec fn view(&self) -> GameView {
        GameView {
            snake1: self.snake1@,
            snake2: self.snake2@,
            apple: self.apple,
            direction1: self.direction1,
            direction2: self.direction2,
            game_over: self.game_over,
            winner: self.winner,
            crashed1: self.crashed1,
            crashed2: self.crashed2,
        }
    }
}

/// A body covers the cell with coordinates `(cx, cy)`.
pub open spec fn hits(body: Seq<Pos>, cx: int, cy: int) -> bool {
    exists|i: int| 0 <= i < body.len() && body[i].x == cx && body[i].y == cy
}

/// One snake is well formed: never empty, every cell on the field, no cell
/// occupied twice.
pub open spec fn snake_ok(body: Seq<Pos>) -> bool {
    &&& body.len() >= 1
    &&& forall|i: int| 0 <= i < body.len() ==> in_bounds(#[trigger] body[i])
    &&& forall|i: int, j: int| 0 <= i < j < body.len() ==> body[i] != body[j]
}

/// The apple lies on the field and on no snake cell.
pub open spec fn apple_ok(g: GameView) -> bool {
    in_bounds(g.apple) && !g.snake1.contains(g.apple) && !g.snake2.contains(g.apple)
}

/// The game-state invariant: both snakes well formed and, while the game
/// runs, the apple free, no crash recorded and no winner declared.
pub open spec fn wf(g: GameView) -> bool {
    &&& snake_ok(g.snake1)
    &&& snake_ok(g.snake2)
    &&& !g.game_over ==> apple_ok(g) && !g.crashed1 && !g.crashed2 && g.winner is None
}

/// The two snakes together cover every cell of the field.
pub open spec fn board_full(s1: Seq<Pos>, s2: Seq<Pos>) -> bool {
    forall|p: Pos| #[trigger] in_bounds(p) ==> s1.contains(p) || s2.contains(p)
}

/// Covering a cell is the same whether stated over coordinates or over the
/// cell value itself.
pub proof fn lemma_hits_is_contains(body: Seq<Pos>, p: Pos)
    ensures
        hits(body, p.x as int, p.y as int) == body.contains(p),
{
    if hits(body, p.x as int, p.y as int) {
        let i = choose|i: int| 0 <= i < body.len() && body[i].x == p.x && body[i].y == p.y;
        assert(body[i] == p);
        assert(body.contains(p));
    }
    if body.contains(p) {
        let i = choose|i: int| 0 <= i < body.len() && body[i] == p;
        assert(hits(body, p.x as int, p.y as int));
    }
}

/// Whether `body` occupies the cell `p`.
pub fn occupies(body: &Vec<Pos>, p: Pos) -> (r: bool)
    ensures
        r == body@.contains(p),
{
    let mut i: usize = 0;
    while i < body.len()
        invariant
            0 <= i <= body@.len(),
            forall|k: int| 0 <= k < i ==> body@[k] != p,
        decreases body@.len() - i,
    {
        if body[i] == p {
            return true;
        }
        i = i + 1;
    }
    false
}

/// Whether `q` comes before `p` in row-major order over the field.
pub open spec fn row_major_before(q: Pos, p: Pos) -> bool {
    q.y < p.y || (q.y == p.y && q.x < p.x)
}

/// The first free cell in row-major order, or `None` when the snakes cover
/// the whole field.
#[verifier::loop_isolation(false)]
pub fn first_free_cell(snake1: &Vec<Pos>, snake2: &Vec<Pos>) -> (r: Option<Pos>)
    ensures
        match r {
            Some(p) => in_bounds(p) && !snake1@.contains(p) && !snake2@.contains(p)
                && forall|q: Pos| #[trigger]
                in_bounds(q) && row_major_before(q, p) ==> snake1@.contains(q)
                    || snake2@.contains(q),
            None => board_full(snake1@, snake2@),
        },
{
    let mut y: u16 = 0;
    while y < HEIGHT
        invariant
            y <= HEIGHT,
            forall|p: Pos| in_bounds(p) && p.y < y ==> snake1@.contains(p) || snake2@.contains(p),
        decreases HEIGHT - y,
    {
        let mut x: u16 = 0;
        while x < WIDTH
            invariant
                x <= WIDTH,
                y < HEIGHT,
                forall|p: Pos| in_bounds(p) && (p.y < y || (p.y == y && p.x < x)) ==>
                    snake1@.contains(p) || snake2@.contains(p),
            decreases WIDTH - x,
        {
            let pos = Pos { x, y };
            if !occupies(snake1, pos) && !occupies(snake2, pos) {
                return Some(pos);
            }
            x = x + 1;
        }
        y = y + 1;
    }
    None
}

/// Whether one snake's part of the invariant holds, checked at run time.
pub fn snake_ok_exec(body: &Vec<Pos>) -> (b: bool)
    ensures
        b == snake_ok(body@),
{
    if body.len() == 0 {
        return false;
    }
    let mut i: usize = 0;
    while i < body.len()
        invariant
            i <= body@.len(),
            body@.len() >= 1,
            forall|k: int| 0 <= k < i ==> in_bounds(#[trigger] body@[k]),
            forall|k: int, l: int| 0 <= k < l < i ==> body@[k] != body@[l],
        decreases body@.len() - i,
    {
        let p = body[i];
        if !(p.x < WIDTH && p.y < HEIGHT) {
            return false;
        }
        let mut j: usize = 0;
        while j < i
            invariant
                j <= i < body@.len(),
                p == body@[i as int],
                forall|l: int| 0 <= l < j ==> body@[l] != p,
            decreases i - j,
        {
            if body[j] == p {
                proof {
                    assert(body@[j as int] == body@[i as int]);
                }
                return false;
            }
            j = j + 1;
        }
        i = i + 1;
    }
    true
}

/// Relies on rand::thread_rng and rand::Rng::gen_range: a draw from the
/// range `0..bound` yields a value below `bound`; gen_range panics on an
/// empty range, which `bound > 0` rules out.
#[verifier::external_body]
fn random_below(bound: u16) -> (r: u16)
    requires
        bound > 0,
    ensures
        r < bound,
{
    rand::thread_rng().gen_range(0..bound)
}

/// Candidate head coordinates of snake 1 this tick.
pub open spec fn cand1(g: GameView) -> (int, int) {
    (step_x(g.snake1[0], g.direction1), step_y(g.snake1[0], g.direction1))
}

/// Candidate head coordinates of snake 2 this tick.
pub open spec fn cand2(g: GameView) -> (int, int) {
    (step_x(g.snake2[0], g.direction2), step_y(g.snake2[0], g.direction2))
}

/// A candidate head at `(cx, cy)` is fatal: off the field, or on a
/// pre-move cell of either snake.
pub open spec fn fatal_at(g: GameView, cx: int, cy: int) -> bool {
    cx >= WIDTH || cy >= HEIGHT || hits(g.snake1, cx, cy) || hits(g.snake2, cx, cy)
}

/// Snake 1 crashes this tick.
pub open spec fn fatal1(g: GameView) -> bool {
    fatal_at(g, cand1(g).0, cand1(g).1)
}

/// Snake 2 crashes this tick.
pub open spec fn fatal2(g: GameView) -> bool {
    fatal_at(g, cand2(g).0, cand2(g).1)
}

/// Snake 1's new head as a cell, meaningful on a non-fatal tick.
pub open spec fn new_head1(g: GameView) -> Pos {
    Pos { x: cand1(g).0 as u16, y: cand1(g).1 as u16 }
}

/// Snake 2's new head as a cell, meaningful on a non-fatal tick.
pub open spec fn new_head2(g: GameView) -> Pos {
    Pos { x: cand2(g).0 as u16, y: cand2(g).1 as u16 }
}

/// Snake 1 eats this tick: no snake crashes and its new head lands on the
/// pre-tick apple.
pub open spec fn eats1(g: GameView) -> bool {
    !fatal1(g) && !fatal2(g) && cand1(g).0 == g.apple.x && cand1(g).1 == g.apple.y
}

/// Snake 2 eats this tick: no snake crashes and its new head lands on the
/// pre-tick apple.
pub open spec fn eats2(g: GameView) -> bool {
    !fatal1(g) && !fatal2(g) && cand2(g).0 == g.apple.x && cand2(g).1 == g.apple.y
}

/// A snake body after moving: the new head in front, the tail cell kept
/// only on a tick the snake grows.
pub open spec fn moved_body(body: Seq<Pos>, head: Pos, grow: bool) -> Seq<Pos> {
    if grow {
        body.insert(0, head)
    } else {
        body.insert(0, head).drop_last()
    }
}

/// Snake 1's body after a non-fatal tick.
pub open spec fn moved1(g: GameView) -> Seq<Pos> {
    moved_body(g.snake1, new_head1(g), eats1(g))
}

/// Snake 2's body after a non-fatal tick.
pub open spec fn moved2(g: GameView) -> Seq<Pos> {
    moved_body(g.snake2, new_head2(g), eats2(g))
}

/// The outcome declared at a fatal tick: the surviving player wins; when
/// both snakes crash at once the longer snake's player wins, and equal
/// lengths tie, encoded as player number zero.
pub open spec fn crash_winner(g: GameView) -> Option<u8> {
    if fatal1(g) && fatal2(g) {
        if g.snake1.len() > g.snake2.len() {
            Some(1u8)
        } else if g.snake2.len() > g.snake1.len() {
            Some(2u8)
        } else {
            Some(0u8)
        }
    } else if fatal1(g) {
        Some(2u8)
    } else {
        Some(1u8)
    }
}

/// The state one tick later, given the cell `fresh` that a regenerated
/// apple lands on; `fresh` matters only on a tick where a snake eats.
///
/// On a fatal tick no snake advances and the game ends with the outcome of
/// `crash_winner`. Otherwise both snakes advance, each growing exactly
/// when its new head lands on the pre-tick apple; an eaten apple is
/// regenerated at `fresh`. Should the moved snakes cover the whole field,
/// no cell can take a new apple and the game ends instead, with no winner
/// declared.
pub open spec fn tick_view(g: GameView, fresh: Pos) -> GameView {
    if fatal1(g) || fatal2(g) {
        GameView {
            game_over: true,
            crashed1: g.crashed1 || fatal1(g),
            crashed2: g.crashed2 || fatal2(g),
            winner: crash_winner(g),
            ..g
        }
    } else if (eats1(g) || eats2(g)) && board_full(moved1(g), moved2(g)) {
        GameView { snake1: moved1(g), snake2: moved2(g), game_over: true, ..g }
    } else {
        GameView {
            snake1: moved1(g),
            snake2: moved2(g),
            apple: if eats1(g) || eats2(g) { fresh } else { g.apple },
            ..g
        }
    }
}

/// Every cell of a moved body is the new head or a cell of the old body,
/// and the new head is always among them.
pub proof fn lemma_moved_body_cells(body: Seq<Pos>, head: Pos, grow: bool, p: Pos)
    requires
        body.len() >= 1,
    ensures
        moved_body(body, head, grow).contains(p) ==> p == head || body.contains(p),
        moved_body(body, head, grow).contains(head),
{
    let m = moved_body(body, head, grow);
    body.insert_ensures(0, head);
    assert(m[0] == head);
    assert(m.len() >= 1);
    assert(m.contains(head));
    if m.contains(p) {
        let i = choose|i: int| 0 <= i < m.len() && m[i] == p;
        if i > 0 {
            assert(m[i] == body.insert(0, head)[i]);
            assert(body.insert(0, head)[(i - 1) + 1] == body[i - 1]);
            assert(body.contains(p));
        }
    }
}

/// A moved body stays well formed when its new head is on the field and
/// off the old body, and its length grows by one exactly on a growing move.
pub proof fn lemma_moved_body_ok(body: Seq<Pos>, head: Pos, grow: bool)
    requires
        snake_ok(body),
        in_bounds(head),
        !body.contains(head),
    ensures
        snake_ok(moved_body(body, head, grow)),
        moved_body(body, head, grow).len() == body.len() + (if grow { 1int } else { 0int }),
{
    let m = moved_body(body, head, grow);
    body.insert_ensures(0, head);
    assert forall|i: int| 0 <= i < m.len() implies in_bounds(#[trigger] m[i]) by {
        if i == 0 {
            assert(m[i] == head);
        } else {
            assert(body.insert(0, head)[(i - 1) + 1] == body[i - 1]);
            assert(m[i] == body[i - 1]);
        }
    }
    assert forall|i: int, j: int| 0 <= i < j < m.len() implies m[i] != m[j] by {
        assert(body.insert(0, head)[(j - 1) + 1] == body[j - 1]);
        assert(m[j] == body[j - 1]);
        assert(body.contains(body[j - 1]));
        if i > 0 {
            assert(body.insert(0, head)[(i - 1) + 1] == body[i - 1]);
            assert(m[i] == body[i - 1]);
        } else {
            assert(m[i] == head);
        }
    }
}

impl SnakeGame {
    /// Draw a random free cell for the apple: one on the field and on
    /// neither snake. A bounded number of uniform draws over the field is
    /// tried first; if all land on a snake, the first free cell in
    /// row-major order is taken.
    pub fn generate_apple(snake1: &Vec<Pos>, snake2: &Vec<Pos>) -> (r: Pos)
        requires
            !board_full(snake1@, snake2@),
        ensures
            in_bounds(r),
            !snake1@.contains(r),
            !snake2@.contains(r),
    {
        let mut tries: u32 = 0;
        while tries < 1000
            invariant
                tries <= 1000,
            decreases 1000 - tries,
        {
            let x = random_below(WIDTH);
            let y = random_below(HEIGHT);
            let pos = Pos { x, y };
            if !occupies(snake1, pos) && !occupies(snake2, pos) {
                return pos;
            }
            tries = tries + 1;
        }
        match first_free_cell(snake1, snake2) {
            Some(pos) => pos,
            None => {
                proof {
                    assert(false);
                }
                Pos { x: 0, y: 0 }
            },
        }
    }

    /// A fresh game: each snake a single cell on the middle row, facing
    /// the other, with a free cell holding the apple.
    pub fn new() -> (g: SnakeGame)
        ensures
            g@.snake1.len() == 1,
            g@.snake1[0].x == 10 && g@.snake1[0].y == 5,
            g@.snake2.len() == 1,
            g@.snake2[0].x == 8 && g@.snake2[0].y == 5,
            g@.direction1 == Direction::Right,
            g@.direction2 == Direction::Left,
            !g@.game_over,
            g@.winner is None,
            !g@.crashed1,
            !g@.crashed2,
            wf(g@),
    {
        let mut snake1: Vec<Pos> = Vec::new();
        snake1.push(Pos { x: 10, y: 5 });
        let mut snake2: Vec<Pos> = Vec::new();
        snake2.push(Pos { x: 8, y: 5 });
        proof {
            let free = Pos { x: 0u16, y: 0u16 };
            assert(in_bounds(free));
            assert(!snake1@.contains(free));
            assert(!snake2@.contains(free));
            assert(!board_full(snake1@, snake2@));
        }
        let apple = SnakeGame::generate_apple(&snake1, &snake2);
        SnakeGame {
            snake1,
            snake2,
            apple,
            direction1: Direction::Right,
            direction2: Direction::Left,
            game_over: false,
            winner: None,
            crashed1: false,
            crashed2: false,
        }
    }

    /// Whether the whole state invariant holds, checked at run time, for
    /// callers that hold no proof of it.
    pub fn is_well_formed(&self) -> (b: bool)
        ensures
            b == wf(self@),
    {
        if !snake_ok_exec(&self.snake1) {
            return false;
        }
        if !snake_ok_exec(&self.snake2) {
            return false;
        }
        if !self.game_over {
            if !(self.apple.x < WIDTH && self.apple.y < HEIGHT) {
                return false;
            }
            if occupies(&self.snake1, self.apple) || occupies(&self.snake2, self.apple) {
                return false;
            }
            if self.crashed1 || self.crashed2 {
                return false;
            }
            if self.winner.is_some() {
                return false;
            }
        }
        true
    }

    /// Advance the game by one tick. The new state is exactly `tick_view`
    /// of the old one, with the regenerated apple standing in for the
    /// oracle's choice; the state invariant is preserved.
    pub fn update(&mut self)
        requires
            wf(old(self)@),
            !old(self)@.game_over,
        ensures
            final(self)@ == tick_view(old(self)@, final(self)@.apple),
            wf(final(self)@),
    {
        proof {
            assert(old(self)@.snake1.len() >= 1);
            assert(old(self)@.snake2.len() >= 1);
            assert(in_bounds(old(self)@.snake1[0]));
            assert(in_bounds(old(self)@.snake2[0]));
        }
        let head1 = self.snake1[0];
        let head2 = self.snake2[0];
        let c1 = step_cell(head1, self.direction1);
        let c2 = step_cell(head2, self.direction2);
        let f1 = c1.x >= WIDTH || c1.y >= HEIGHT || occupies(&self.snake1, c1) || occupies(
            &self.snake2,
            c1,
        );
        let f2 = c2.x >= WIDTH || c2.y >= HEIGHT || occupies(&self.snake2, c2) || occupies(
            &self.snake1,
            c2,
        );
        proof {
            lemma_hits_is_contains(old(self)@.snake1, c1);
            lemma_hits_is_contains(old(self)@.snake2, c1);
            lemma_hits_is_contains(old(self)@.snake1, c2);
            lemma_hits_is_contains(old(self)@.snake2, c2);
            assert(f1 == fatal1(old(self)@));
            assert(f2 == fatal2(old(self)@));
        }
        if f1 || f2 {
            self.game_over = true;
            if f1 {
                self.crashed1 = true;
            }
            if f2 {
                self.crashed2 = true;
            }
            self.winner = if f1 && f2 {
                if self.snake1.len() > self.snake2.len() {
                    Some(1)
                } else if self.snake2.len() > self.snake1.len() {
                    Some(2)
                } else {
                    Some(0)
                }
            } else if f1 {
                Some(2)
            } else {
                Some(1)
            };
            proof {
                assert(self@ =~= tick_view(old(self)@, self@.apple));
            }
            return;
        }
        let ate1 = c1.x == self.apple.x && c1.y == self.apple.y;
        let ate2 = c2.x == self.apple.x && c2.y == self.apple.y;
        proof {
            assert(new_head1(old(self)@) == c1);
            assert(new_head2(old(self)@) == c2);
            assert(ate1 == eats1(old(self)@));
            assert(ate2 == eats2(old(self)@));
            assert(!old(self)@.snake1.contains(c1));
            assert(!old(self)@.snake2.contains(c2));
            lemma_moved_body_ok(old(self)@.snake1, c1, ate1);
            lemma_moved_body_ok(old(self)@.snake2, c2, ate2);
        }
        self.snake1.insert(0, c1);
        if !ate1 {
            self.snake1.pop();
        }
        self.snake2.insert(0, c2);
        if !ate2 {
            self.snake2.pop();
        }
        proof {
            assert(self@.snake1 =~= moved1(old(self)@));
            assert(self@.snake2 =~= moved2(old(self)@));
        }
        if ate1 || ate2 {
            match first_free_cell(&self.snake1, &self.snake2) {
                Some(_) => {
                    proof {
                        assert(!board_full(self@.snake1, self@.snake2));
                    }
                    self.apple = SnakeGame::generate_apple(&self.snake1, &self.snake2);
                },
                None => {
                    self.game_over = true;
                },
            }
        }
        proof {
            lemma_moved_body_cells(old(self)@.snake1, c1, ate1, old(self)@.apple);
            lemma_moved_body_cells(old(self)@.snake2, c2, ate2, old(self)@.apple);
            assert(self@ =~= tick_view(old(self)@, self@.apple));
            assert(wf(self@));
        }
    }
}

} // verus!
