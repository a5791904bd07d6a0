//! The game state and the functions that advance it.

use vstd::prelude::*;
use crate::food::{picks_in_range, random_index};
use crate::model::{lemma_wrap_step, Game};

verus! {

/// Marker of a cell that holds neither food nor snake.
pub const CELL_EMPTY: &'static str = "-";

/// Marker of the cell that holds the head of the snake.
pub const CELL_SNAKE_HEAD: &'static str = "o";

/// Marker of a cell that holds a segment of the snake behind its head.
pub const CELL_SNAKE_TAIL: &'static str = "*";

/// Marker of the cell that holds the food.
pub const CELL_FOOD: &'static str = "@";

/// Coordinates of the food or of one segment of the snake.
#[derive(Debug, Clone, Copy, PartialEq, Eq, Structural)]
pub struct Point {
    pub x: usize,
    pub y: usize,
}

/// Direction in which the snake moves.
#[derive(Debug, Clone, Copy, PartialEq, Eq, Structural)]
pub enum Direction {
    Up,
    Down,
    Left,
    Right,
}

/// Keys that the game reacts to.
#[derive(Debug, Clone, Copy, PartialEq, Eq, Structural)]
pub enum AllowedKeys {
    Up,
    Down,
    Left,
    Right,
    Reset,
}

/// The game as the host loop owns it.
#[derive(Debug)]
pub struct State {
    pub board_size: usize,
    pub use_timer: bool,
    pub snake: Vec<Point>,
    pub food: Point,
    pub direction: Direction,
    pub did_win: bool,
}

impl View for State {
    type V = Game;

    open spec fn view(&self) -> Game {
        Game {
            board_size: self.board_size,
            use_timer: self.use_timer,
            snake: self.snake@,
            food: self.food,
            direction: self.direction,
            did_win: self.did_win,
        }
    }
}

impl State {
    /// Starts a game: a snake of one segment in the top left corner,
    /// heading right, and the food on a free cell chosen by `pick`.
    pub fn new_with<F: Fn(usize) -> usize>(
        use_timer: bool,
        board_size: usize,
        pick: F,
    ) -> (state: State)
        requires
            board_size >= 2,
            picks_in_range(pick),
        ensures
            Game::starts_as_by(use_timer, board_size, state@, pick),
            state@.wf(),
    {
        let mut state = State {
            board_size,
            use_timer,
            snake: vec![Point { x: 0, y: 0 }],
            food: Point { x: 0, y: 0 },
            direction: Direction::Right,
            did_win: false,
        };
        let ghost fresh = Game::fresh(use_timer, board_size);
        proof {
            assert(state@.snake =~= fresh.snake);
            assert(1 < board_size * board_size) by (nonlinear_arith)
                requires
                    board_size >= 2,
            ;
            fresh.lemma_free_cell_left();
        }
        state.food = state.gen_food_position_with(pick);
        proof {
            Game::lemma_start(use_timer, board_size, state@);
        }
        state
    }

    /// Starts a game with the food on a free cell chosen at random.
    pub fn new(use_timer: bool, board_size: usize) -> (state: State)
        requires
            board_size >= 2,
        ensures
            Game::starts_as(use_timer, board_size, state@),
            state@.wf(),
    {
        let state = State::new_with(use_timer, board_size, random_index);
        proof {
            Game::fresh(use_timer, board_size).lemma_picked_is_free(random_index, state.food);
        }
        state
    }

    /// Says whether this state keeps the invariant of the game.
    pub fn is_valid(&self) -> (valid: bool)
        ensures
            valid == self@.wf(),
    {
        let n = self.board_size;
        if n < 2 || self.snake.len() == 0 || self.food.x >= n || self.food.y >= n {
            return false;
        }
        let full = match n.checked_mul(n) {
            Some(cells) => {
                if self.snake.len() > cells {
                    return false;
                }
                self.snake.len() == cells
            },
            None => false,
        };
        if full != self.did_win {
            return false;
        }
        let mut i: usize = 0;
        while i < self.snake.len()
            invariant
                i <= self.snake.len(),
                n == self.board_size,
                forall|j: int| 0 <= j < i ==> (#[trigger] self.snake[j]).on_board(n),
                !self.did_win ==> forall|j: int| 0 <= j < i ==> self.snake[j] != self.food,
            decreases self.snake.len() - i,
        {
            let segment = self.snake[i];
            if segment.x >= n || segment.y >= n {
                return false;
            }
            if !self.did_win && segment == self.food {
                return false;
            }
            i += 1;
        }
        true
    }

    /// Turns the snake towards `new_direction`, unless the game is won or
    /// the turn would reverse the snake. Says whether it turned.
    pub fn change_direction(&mut self, new_direction: Direction) -> (changed: bool)
        ensures
            changed == old(self)@.accepts(new_direction),
            final(self)@ == old(self)@.turn(new_direction),
            old(self).did_win || new_direction == old(self).direction.opposite() ==> !changed
                && final(self)@ == old(self)@,
            old(self)@.wf() ==> final(self)@.wf(),
            old(self)@.playable() ==> final(self)@.playable(),
    {
        if self.did_win {
            return false;
        }
        if self.direction == Direction::Up && new_direction == Direction::Down
            || self.direction == Direction::Down && new_direction == Direction::Up
            || self.direction == Direction::Left && new_direction == Direction::Right
            || self.direction == Direction::Right && new_direction == Direction::Left {
            return false;
        }
        self.direction = new_direction;
        true
    }

    /// Handles a key. An arrow key asks for a turn, and where no timer
    /// drives the game a granted turn moves the snake at once; the reset
    /// key starts the game anew. Any new food is chosen by `pick`.
    pub fn on_key_press_with<F: Fn(usize) -> usize>(&mut self, key: AllowedKeys, pick: F)
        requires
            key == AllowedKeys::Reset ==> old(self).board_size >= 2,
            old(self)@.moves_on(key) ==> old(self)@.playable(),
            picks_in_range(pick),
        ensures
            old(self)@.key_leads_to_by(key, final(self)@, pick),
            key == AllowedKeys::Reset || old(self)@.wf() ==> final(self)@.wf(),
            key == AllowedKeys::Reset || old(self)@.playable() ==> final(self)@.playable(),
    {
        let can_move = match key {
            AllowedKeys::Up => self.change_direction(Direction::Up),
            AllowedKeys::Down => self.change_direction(Direction::Down),
            AllowedKeys::Left => self.change_direction(Direction::Left),
            AllowedKeys::Right => self.change_direction(Direction::Right),
            AllowedKeys::Reset => {
                *self = State::new_with(self.use_timer, self.board_size, pick);
                return;
            },
        };
        if can_move && !self.use_timer {
            self.move_snake_with(pick)
        }
    }

    /// Handles a key, choosing any new food at random.
    pub fn on_key_press(&mut self, key: AllowedKeys)
        requires
            key == AllowedKeys::Reset ==> old(self).board_size >= 2,
            old(self)@.moves_on(key) ==> old(self)@.playable(),
        ensures
            old(self)@.key_leads_to(key, final(self)@),
            key == AllowedKeys::Reset || old(self)@.wf() ==> final(self)@.wf(),
            key == AllowedKeys::Reset || old(self)@.playable() ==> final(self)@.playable(),
    {
        self.on_key_press_with(key, random_index);
        proof {
            old(self)@.lemma_key_by_pick(key, self@, random_index);
        }
    }

    /// Moves the snake by one cell, unless the game is won. A snake that
    /// reaches the food grows by one segment; the game is then won if the
    /// snake is as long as the board has cells, and otherwise the food
    /// moves to a free cell chosen by `pick`.
    pub fn move_snake_with<F: Fn(usize) -> usize>(&mut self, pick: F)
        requires
            old(self)@.playable(),
            picks_in_range(pick),
        ensures
            old(self)@.moves_to_by(final(self)@, pick),
            final(self)@.playable(),
            old(self)@.wf() ==> final(self)@.wf(),
    {
        if self.did_win {
            return;
        }
        let ghost before = self@;
        let new_head = self.move_forward();
        self.snake.insert(0, new_head);
        assert(self.snake@ =~= seq![new_head] + before.snake);
        if new_head.x != self.food.x || new_head.y != self.food.y {
            self.snake.pop();
            assert(self.snake@ =~= seq![new_head] + before.snake.drop_last());
        } else {
            let full = match self.board_size.checked_mul(self.board_size) {
                Some(cells) => self.snake.len() == cells,
                None => false,
            };
            assert(full == (self.snake.len() == self.board_size * self.board_size));
            if full {
                self.did_win = true;
            } else {
                proof {
                    assert(self@.snake[0] == self@.food);
                    self@.lemma_free_cell_left();
                }
                self.food = self.gen_food_position_with(pick);
            }
        }
        proof {
            before.lemma_move_playable(self@);
            if before.wf() {
                before.lemma_move_wf(self@);
            }
        }
    }

    /// Moves the snake by one cell, choosing any new food at random.
    pub fn move_snake(&mut self)
        requires
            old(self)@.playable(),
        ensures
            old(self)@.moves_to(final(self)@),
            final(self)@.playable(),
            old(self)@.wf() ==> final(self)@.wf(),
    {
        self.move_snake_with(random_index);
        proof {
            old(self)@.lemma_move_by_pick(self@, random_index);
        }
    }

    /// Computes where the head goes next: one cell in the current direction,
    /// re-entering at the opposite edge when it leaves the board.
    pub fn move_forward(&self) -> (new_head: Point)
        requires
            self@.snake.len() > 0,
            self@.head().on_board(self.board_size),
        ensures
            new_head == self@.next_head(),
            new_head.on_board(self.board_size),
    {
        let head = self.snake[0];
        let mut new_head = head;
        proof {
            lemma_wrap_step(head.x, self.board_size);
            lemma_wrap_step(head.y, self.board_size);
        }
        match self.direction {
            Direction::Up => {
                if head.y > 0 {
                    new_head.y -= 1;
                } else {
                    new_head.y = self.board_size - 1;
                }
            },
            Direction::Down => {
                if head.y < self.board_size - 1 {
                    new_head.y += 1;
                } else {
                    new_head.y = 0;
                }
            },
            Direction::Left => {
                if head.x > 0 {
                    new_head.x -= 1;
                } else {
                    new_head.x = self.board_size - 1;
                }
            },
            Direction::Right => {
                if head.x < self.board_size - 1 {
                    new_head.x += 1;
                } else {
                    new_head.x = 0;
                }
            },
        }
        new_head
    }
}

} // verus!
