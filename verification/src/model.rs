//! The rules of the game as mathematics: the model of a state, and what a
//! turn, a move and a key make of it.

use vstd::prelude::*;
use vstd::arithmetic::div_mod::{lemma_mod_add_multiples_vanish, lemma_mod_self_0, lemma_small_mod};
use crate::state::{AllowedKeys, Direction, Point};

verus! {

/// The mathematical model of a [`crate::state::State`]: the snake is a
/// sequence of points, head first.
pub struct Game {
    pub board_size: usize,
    pub use_timer: bool,
    pub snake: Seq<Point>,
    pub food: Point,
    pub direction: Direction,
    pub did_win: bool,
}

/// The coordinate `i` folded onto a circle of `n` cells.
pub open spec fn wrap(i: int, n: usize) -> usize {
    (i % (n as int)) as usize
}

/// One step forward or backward along a circle of `n` cells, as an `if`
/// computes it, agrees with [`wrap`].
pub proof fn lemma_wrap_step(c: usize, n: usize)
    requires
        c < n,
    ensures
        wrap(c + 1, n) == (if c + 1 < n { c + 1 } else { 0 }),
        wrap(c + n - 1, n) == (if c > 0 { c - 1 } else { n - 1 }),
{
    if c + 1 < n {
        lemma_small_mod((c + 1) as nat, n as nat);
    } else {
        lemma_mod_self_0(n as int);
    }
    if c > 0 {
        lemma_mod_add_multiples_vanish(c - 1, n as int);
        lemma_small_mod((c - 1) as nat, n as nat);
    } else {
        lemma_small_mod((n - 1) as nat, n as nat);
    }
}

impl Direction {
    /// The direction that points the other way.
    pub open spec fn opposite(self) -> Direction {
        match self {
            Direction::Up => Direction::Down,
            Direction::Down => Direction::Up,
            Direction::Left => Direction::Right,
            Direction::Right => Direction::Left,
        }
    }
}

impl AllowedKeys {
    /// The direction that an arrow key asks for; the reset key asks for
    /// none.
    pub open spec fn direction(self) -> Option<Direction> {
        match self {
            AllowedKeys::Up => Some(Direction::Up),
            AllowedKeys::Down => Some(Direction::Down),
            AllowedKeys::Left => Some(Direction::Left),
            AllowedKeys::Right => Some(Direction::Right),
            AllowedKeys::Reset => None,
        }
    }
}

impl Point {
    /// The cell in the top left corner, where every snake starts.
    pub open spec fn origin() -> Point {
        Point { x: 0, y: 0 }
    }

    /// Whether the point lies on a board of side `n`.
    pub open spec fn on_board(self, n: usize) -> bool {
        self.x < n && self.y < n
    }

    /// The cell next to `self` in direction `d` on a board of side `n` whose
    /// opposite edges are glued together. `y` grows downwards.
    pub open spec fn neighbour(self, d: Direction, n: usize) -> Point {
        match d {
            Direction::Up => Point { x: self.x, y: wrap(self.y + n - 1, n) },
            Direction::Down => Point { x: self.x, y: wrap(self.y + 1, n) },
            Direction::Left => Point { x: wrap(self.x + n - 1, n), y: self.y },
            Direction::Right => Point { x: wrap(self.x + 1, n), y: self.y },
        }
    }
}

impl Game {
    /// The first segment of the snake.
    pub open spec fn head(self) -> Point {
        self.snake[0]
    }

    /// Where the head stands after one move in the current direction.
    pub open spec fn next_head(self) -> Point {
        self.head().neighbour(self.direction, self.board_size)
    }

    /// The number of cells of the board.
    pub open spec fn cells(self) -> nat {
        (self.board_size * self.board_size) as nat
    }

    /// What drawing needs: the snake has a head, and the snake and the food
    /// lie on the board.
    pub open spec fn on_board(self) -> bool {
        &&& self.snake.len() > 0
        &&& forall|i: int|
            0 <= i < self.snake.len() ==> (#[trigger] self.snake[i]).on_board(self.board_size)
        &&& self.food.on_board(self.board_size)
    }

    /// What a move needs: the game is won and stands still, or snake and
    /// food lie on the board and the snake is shorter than the board has
    /// cells.
    pub open spec fn playable(self) -> bool {
        self.did_win || (self.on_board() && self.snake.len() < self.cells())
    }

    /// The invariant of a game in play. The board has at least two cells a
    /// side, snake and food lie on it, the snake is never longer than the
    /// board has cells, the game is won exactly when it is that long, and
    /// until then the food lies off the snake.
    pub open spec fn wf(self) -> bool {
        &&& self.board_size >= 2
        &&& self.on_board()
        &&& self.snake.len() <= self.cells()
        &&& self.did_win <==> self.snake.len() == self.cells()
        &&& !self.did_win ==> !self.snake.contains(self.food)
    }

    /// Whether a request to head in direction `d` is granted: never once the
    /// game is won, and never for a turn straight back.
    pub open spec fn accepts(self, d: Direction) -> bool {
        !self.did_win && d != self.direction.opposite()
    }

    /// The game after a request to head in direction `d`.
    pub open spec fn turn(self, d: Direction) -> Game {
        if self.accepts(d) {
            Game { direction: d, ..self }
        } else {
            self
        }
    }

    /// Whether the next move puts the head on the food.
    pub open spec fn eats(self) -> bool {
        self.next_head() == self.food
    }

    /// Whether the next move leaves the food eaten and the board not yet
    /// full, so that new food has to be placed.
    pub open spec fn needs_food(self) -> bool {
        !self.did_win && self.eats() && self.snake.len() + 1 != self.cells()
    }

    /// The game after one move, before any new food is placed. A won game
    /// stays as it is. Otherwise the new head is put in front; the last
    /// segment is dropped unless the head reached the food, and the game is
    /// won when the grown snake is as long as the board has cells.
    pub open spec fn advance(self) -> Game {
        if self.did_win {
            self
        } else if self.eats() {
            Game {
                snake: seq![self.next_head()] + self.snake,
                did_win: self.snake.len() + 1 == self.cells(),
                ..self
            }
        } else {
            Game { snake: seq![self.next_head()] + self.snake.drop_last(), ..self }
        }
    }

    /// The same game with the food at `p`.
    pub open spec fn with_food(self, p: Point) -> Game {
        Game { food: p, ..self }
    }

    /// The game as it starts, before its first food is placed: a snake of
    /// one segment in the top left corner, heading right, with the food
    /// still under it.
    pub open spec fn fresh(use_timer: bool, board_size: usize) -> Game {
        Game {
            board_size,
            use_timer,
            snake: seq![Point::origin()],
            food: Point::origin(),
            direction: Direction::Right,
            did_win: false,
        }
    }

    /// Whether `next` is this game with the food moved to one of its free
    /// cells.
    pub open spec fn feeds(self, next: Game) -> bool {
        &&& next == self.with_food(next.food)
        &&& self.free_cells().contains(next.food)
    }

    /// Whether `next` is this game with the food moved to the free cell
    /// that `pick` may choose.
    pub open spec fn feeds_by<F: Fn(usize) -> usize>(self, next: Game, pick: F) -> bool {
        &&& next == self.with_food(next.food)
        &&& self.picked(pick, next.food)
    }

    /// Whether one move can lead from this game to `next`: the snake
    /// advances, and where that leaves the food eaten on a board with room,
    /// the food moves to a free cell.
    pub open spec fn moves_to(self, next: Game) -> bool {
        if self.needs_food() {
            self.advance().feeds(next)
        } else {
            next == self.advance()
        }
    }

    /// [`Game::moves_to`] with the new food chosen by `pick`.
    pub open spec fn moves_to_by<F: Fn(usize) -> usize>(self, next: Game, pick: F) -> bool {
        if self.needs_food() {
            self.advance().feeds_by(next, pick)
        } else {
            next == self.advance()
        }
    }

    /// Whether a game of the given settings can start as `next`.
    pub open spec fn starts_as(use_timer: bool, board_size: usize, next: Game) -> bool {
        Game::fresh(use_timer, board_size).feeds(next)
    }

    /// [`Game::starts_as`] with the first food chosen by `pick`.
    pub open spec fn starts_as_by<F: Fn(usize) -> usize>(
        use_timer: bool,
        board_size: usize,
        next: Game,
        pick: F,
    ) -> bool {
        Game::fresh(use_timer, board_size).feeds_by(next, pick)
    }

    /// Whether `key` makes the snake move at once: it is an arrow key, the
    /// turn it asks for is granted, and no timer drives the game.
    pub open spec fn moves_on(self, key: AllowedKeys) -> bool {
        match key.direction() {
            None => false,
            Some(d) => self.accepts(d) && !self.use_timer,
        }
    }

    /// Whether pressing `key` can lead from this game to `next`. The reset
    /// key starts the game anew with the same settings. An arrow key asks
    /// for a turn; where the turn is granted and no timer drives the game,
    /// the snake moves at once.
    pub open spec fn key_leads_to(self, key: AllowedKeys, next: Game) -> bool {
        match key.direction() {
            None => Game::starts_as(self.use_timer, self.board_size, next),
            Some(d) => if self.moves_on(key) {
                self.turn(d).moves_to(next)
            } else {
                next == self.turn(d)
            },
        }
    }

    /// [`Game::key_leads_to`] with any new food chosen by `pick`.
    pub open spec fn key_leads_to_by<F: Fn(usize) -> usize>(
        self,
        key: AllowedKeys,
        next: Game,
        pick: F,
    ) -> bool {
        match key.direction() {
            None => Game::starts_as_by(self.use_timer, self.board_size, next, pick),
            Some(d) => if self.moves_on(key) {
                self.turn(d).moves_to_by(next, pick)
            } else {
                next == self.turn(d)
            },
        }
    }
}

} // verus!
