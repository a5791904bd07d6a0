//! What holds of every game: the laws that the rules obey.

use vstd::prelude::*;
use crate::model::{lemma_wrap_step, Game};
use crate::state::{AllowedKeys, Direction, Point};

verus! {

/// Whether `g` is a game in play: one that starts a game, or comes from a
/// game in play by one of `steps` turns, moves and keys.
pub open spec fn reachable(g: Game, steps: nat) -> bool
    decreases steps,
{
    if steps == 0 {
        exists|use_timer: bool, board_size: usize| Game::starts_as(use_timer, board_size, g)
    } else {
        exists|prev: Game| reachable(prev, (steps - 1) as nat) && #[trigger] prev.leads_to(g)
    }
}

/// Leaving the board at one edge brings the head back at the opposite
/// edge, in the same row or column.
pub proof fn lemma_wrap_around(p: Point, n: usize)
    requires
        p.on_board(n),
    ensures
        p.x == n - 1 ==> p.neighbour(Direction::Right, n) == (Point { x: 0, y: p.y }),
        p.x == 0 ==> p.neighbour(Direction::Left, n) == (Point { x: (n - 1) as usize, y: p.y }),
        p.y == n - 1 ==> p.neighbour(Direction::Down, n) == (Point { x: p.x, y: 0 }),
        p.y == 0 ==> p.neighbour(Direction::Up, n) == (Point { x: p.x, y: (n - 1) as usize }),
{
    lemma_wrap_step(p.x, n);
    lemma_wrap_step(p.y, n);
}

/// Away from the edge the head moves to the cell beside it.
pub proof fn lemma_step_inside(p: Point, n: usize)
    requires
        p.on_board(n),
    ensures
        p.x < n - 1 ==> p.neighbour(Direction::Right, n) == (Point {
            x: (p.x + 1) as usize,
            y: p.y,
        }),
        p.x > 0 ==> p.neighbour(Direction::Left, n) == (Point { x: (p.x - 1) as usize, y: p.y }),
        p.y < n - 1 ==> p.neighbour(Direction::Down, n) == (Point {
            x: p.x,
            y: (p.y + 1) as usize,
        }),
        p.y > 0 ==> p.neighbour(Direction::Up, n) == (Point { x: p.x, y: (p.y - 1) as usize }),
{
    lemma_wrap_step(p.x, n);
    lemma_wrap_step(p.y, n);
}

impl Game {
    /// Whether a turn, a move or a key can lead from this game to `next`.
    pub open spec fn leads_to(self, next: Game) -> bool {
        ||| self.moves_to(next)
        ||| exists|d: Direction| next == #[trigger] self.turn(d)
        ||| exists|key: AllowedKeys| #[trigger] self.key_leads_to(key, next)
    }

    /// A turn straight back is refused and leaves the game as it is.
    pub proof fn lemma_reversal_rejected(self)
        ensures
            !self.accepts(self.direction.opposite()),
            self.turn(self.direction.opposite()) == self,
    {
    }

    /// Once the game is won, every turn is refused and leaves the game as
    /// it is.
    pub proof fn lemma_frozen_when_won(self, d: Direction)
        requires
            self.did_win,
        ensures
            !self.accepts(d),
            self.turn(d) == self,
    {
    }

    /// Once the game is won, a move leaves the game as it is.
    pub proof fn lemma_still_when_won(self, next: Game)
        requires
            self.did_win,
            self.moves_to(next),
        ensures
            next == self,
    {
    }

    /// A move that puts the head on the food makes the snake one segment
    /// longer; any other move leaves its length as it is, and so does a
    /// move of a game that is won.
    pub proof fn lemma_growth(self, next: Game)
        requires
            self.playable(),
            self.moves_to(next),
        ensures
            !self.did_win && self.eats() ==> next.snake.len() == self.snake.len() + 1,
            self.did_win || !self.eats() ==> next.snake.len() == self.snake.len(),
    {
    }

    /// A snake as long as the board has cells has won, and a move leaves
    /// that game as it is.
    pub proof fn lemma_full_board_won(self, next: Game)
        requires
            self.wf(),
            self.snake.len() == self.cells(),
            self.moves_to(next),
        ensures
            self.did_win,
            next == self,
    {
    }

    /// The move that fills the board wins the game and leaves the food
    /// where it was eaten.
    pub proof fn lemma_winning_move(self, next: Game)
        requires
            !self.did_win,
            self.eats(),
            self.snake.len() + 1 == self.cells(),
            self.moves_to(next),
        ensures
            next.did_win,
            next.food == self.food,
            next.snake == seq![self.food] + self.snake,
    {
    }

    /// A game starts with a snake of one segment in the top left corner,
    /// heading right, not won, and with the food on another cell of the
    /// board. No game starts on a board of fewer than two cells a side.
    pub proof fn lemma_start(use_timer: bool, board_size: usize, next: Game)
        requires
            Game::starts_as(use_timer, board_size, next),
        ensures
            next.board_size == board_size,
            next.use_timer == use_timer,
            next.snake == seq![Point::origin()],
            next.direction == Direction::Right,
            !next.did_win,
            next.food.on_board(board_size),
            next.food != Point::origin(),
            board_size >= 2,
            next.wf(),
    {
        let fresh = Game::fresh(use_timer, board_size);
        fresh.lemma_free_cells(next.food);
        assert(1 < board_size * board_size) by (nonlinear_arith)
            requires
                board_size >= 2,
        ;
    }

    /// The reset key starts the game anew with the settings it had.
    pub proof fn lemma_reset(self, next: Game)
        requires
            self.key_leads_to(AllowedKeys::Reset, next),
        ensures
            Game::starts_as(self.use_timer, self.board_size, next),
            next.snake.len() == 1,
            next.head() == Point::origin(),
            !next.did_win,
            next.food.on_board(next.board_size),
            !next.snake.contains(next.food),
            next.wf(),
    {
        Game::lemma_start(self.use_timer, self.board_size, next);
    }

    /// A game that keeps the invariant can move.
    pub proof fn lemma_wf_playable(self)
        requires
            self.wf(),
        ensures
            self.playable(),
    {
    }

    /// The head stays on the board when it moves.
    pub proof fn lemma_next_head_on_board(self)
        requires
            self.on_board(),
        ensures
            self.next_head().on_board(self.board_size),
    {
    }

    /// The snake stays on the board when it advances.
    pub proof fn lemma_advance_on_board(self)
        requires
            self.on_board(),
        ensures
            self.advance().on_board(),
    {
        let next = self.advance();
        assert forall|i: int| 0 <= i < next.snake.len() implies (#[trigger] next.snake[i]).on_board(
            self.board_size,
        ) by {
            if !self.did_win && i > 0 {
                assert(next.snake[i] == self.snake[i - 1]);
            }
        }
    }

    /// After a move the game can move again.
    pub proof fn lemma_move_playable(self, next: Game)
        requires
            self.playable(),
            self.moves_to(next),
        ensures
            next.playable(),
    {
        if self.needs_food() {
            self.advance().lemma_free_cells(next.food);
        }
    }

    /// A turn keeps the invariant of the game.
    pub proof fn lemma_turn_wf(self, d: Direction)
        requires
            self.wf(),
        ensures
            self.turn(d).wf(),
    {
    }

    /// A move keeps the invariant of the game. While the snake advances
    /// onto the food, the food lies under its head; it lies off the snake
    /// again once it is placed anew.
    pub proof fn lemma_move_wf(self, next: Game)
        requires
            self.wf(),
            self.moves_to(next),
        ensures
            next.wf(),
            self.needs_food() ==> self.advance().head() == self.food,
    {
        if self.needs_food() {
            self.advance().lemma_free_cells(next.food);
        } else if !self.did_win && !self.eats() {
            if next.snake.contains(self.food) {
                let i = choose|i: int| 0 <= i < next.snake.len() && next.snake[i] == self.food;
                assert(self.snake[i - 1] == self.food);
            }
        }
    }

    /// A key keeps the invariant of the game.
    pub proof fn lemma_key_wf(self, key: AllowedKeys, next: Game)
        requires
            self.wf(),
            self.key_leads_to(key, next),
        ensures
            next.wf(),
    {
        match key.direction() {
            None => {
                Game::lemma_start(self.use_timer, self.board_size, next);
            },
            Some(d) => {
                if self.moves_on(key) {
                    self.turn(d).lemma_move_wf(next);
                }
            },
        }
    }

    /// Every game in play keeps the invariant of the game.
    pub proof fn lemma_reachable_wf(self, steps: nat)
        requires
            reachable(self, steps),
        ensures
            self.wf(),
        decreases steps,
    {
        if steps == 0 {
            let (use_timer, board_size) = choose|use_timer: bool, board_size: usize|
                Game::starts_as(use_timer, board_size, self);
            Game::lemma_start(use_timer, board_size, self);
        } else {
            let prev = choose|prev: Game|
                reachable(prev, (steps - 1) as nat) && #[trigger] prev.leads_to(self);
            prev.lemma_reachable_wf((steps - 1) as nat);
            if prev.moves_to(self) {
                prev.lemma_move_wf(self);
            } else if exists|d: Direction| self == #[trigger] prev.turn(d) {
                let d = choose|d: Direction| self == #[trigger] prev.turn(d);
                prev.lemma_turn_wf(d);
            } else {
                let key = choose|key: AllowedKeys| #[trigger] prev.key_leads_to(key, self);
                prev.lemma_key_wf(key, self);
            }
        }
    }

    /// In every game in play that is not won, the food lies off the snake.
    pub proof fn lemma_food_off_snake(self, steps: nat)
        requires
            reachable(self, steps),
            !self.did_win,
        ensures
            !self.snake.contains(self.food),
    {
        self.lemma_reachable_wf(steps);
    }

    /// A cell that `pick` may choose is a free cell.
    pub proof fn lemma_picked_is_free<F: Fn(usize) -> usize>(self, pick: F, food: Point)
        requires
            self.picked(pick, food),
        ensures
            self.free_cells().contains(food),
    {
    }

    /// A move with the food chosen by some `pick` is a move of the game.
    pub proof fn lemma_move_by_pick<F: Fn(usize) -> usize>(self, next: Game, pick: F)
        requires
            self.moves_to_by(next, pick),
        ensures
            self.moves_to(next),
    {
    }

    /// A key handled with the food chosen by some `pick` is a key handled
    /// by the game.
    pub proof fn lemma_key_by_pick<F: Fn(usize) -> usize>(
        self,
        key: AllowedKeys,
        next: Game,
        pick: F,
    )
        requires
            self.key_leads_to_by(key, next, pick),
        ensures
            self.key_leads_to(key, next),
    {
    }
}

} // verus!
