//! Drawing the game: a grid of cell markers, and the same grid as text.

use vstd::prelude::*;
use vstd::string::StringExecFns;
use crate::model::Game;
use crate::state::{Point, State, CELL_EMPTY, CELL_FOOD, CELL_SNAKE_HEAD, CELL_SNAKE_TAIL};

verus! {

/// The grid of side `n` in which every cell is empty.
pub open spec fn blank_grid(n: usize) -> Seq<Seq<Seq<char>>> {
    Seq::new(n as nat, |y: int| Seq::new(n as nat, |x: int| CELL_EMPTY@))
}

/// The markers of one row, written one after the other.
pub open spec fn row_text(row: Seq<Seq<char>>) -> Seq<char>
    decreases row.len(),
{
    if row.len() == 0 {
        Seq::empty()
    } else {
        row_text(row.drop_last()) + row.last()
    }
}

/// The rows of a grid from top to bottom, with one line feed between a row
/// and the next and none after the last.
pub open spec fn grid_text(grid: Seq<Seq<Seq<char>>>) -> Seq<char>
    decreases grid.len(),
{
    if grid.len() == 0 {
        Seq::empty()
    } else if grid.len() == 1 {
        row_text(grid.last())
    } else {
        grid_text(grid.drop_last()) + "\n"@ + row_text(grid.last())
    }
}

impl Game {
    /// The marker drawn at `p`. The food is drawn over the head, and the
    /// head over the rest of the snake.
    pub open spec fn glyph(self, p: Point) -> Seq<char> {
        if p == self.food {
            CELL_FOOD@
        } else if p == self.head() {
            CELL_SNAKE_HEAD@
        } else if self.snake.contains(p) {
            CELL_SNAKE_TAIL@
        } else {
            CELL_EMPTY@
        }
    }

    /// The board as rows of markers: row `y`, column `x` shows the cell
    /// `(x, y)`.
    pub open spec fn grid(self) -> Seq<Seq<Seq<char>>> {
        Seq::new(
            self.board_size as nat,
            |y: int|
                Seq::new(
                    self.board_size as nat,
                    |x: int| self.glyph(Point { x: x as usize, y: y as usize }),
                ),
        )
    }

    /// The board as text, one line for each row.
    pub open spec fn text(self) -> Seq<char> {
        grid_text(self.grid())
    }
}

/// Each marker is one character, and no two markers are the same.
pub proof fn lemma_markers()
    ensures
        CELL_EMPTY@ == seq!['-'],
        CELL_SNAKE_HEAD@ == seq!['o'],
        CELL_SNAKE_TAIL@ == seq!['*'],
        CELL_FOOD@ == seq!['@'],
{
    reveal_strlit("-");
    reveal_strlit("o");
    reveal_strlit("*");
    reveal_strlit("@");
}

/// A row of markers of one character each is as long as the row has cells
/// and shows the markers in their order.
pub proof fn lemma_row_text(row: Seq<Seq<char>>)
    requires
        forall|x: int| 0 <= x < row.len() ==> (#[trigger] row[x]).len() == 1,
    ensures
        row_text(row).len() == row.len(),
        forall|x: int| 0 <= x < row.len() ==> #[trigger] row_text(row)[x] == row[x][0],
    decreases row.len(),
{
    if row.len() > 0 {
        lemma_row_text(row.drop_last());
    }
}

/// Where the text of a grid of `n` columns holds column `x` of row `y`;
/// column `n` is the line feed that parts the row from the next.
pub open spec fn text_index(n: nat, x: int, y: int) -> int {
    y * (n + 1) + x
}

/// Rows follow one another in the text at a distance of `n + 1`
/// characters: row `last` starts where the line feed after row `last - 1`
/// ends, and everything else of the rows above it comes before that line
/// feed.
proof fn lemma_text_index(n: nat, x: int, y: int, last: int)
    requires
        0 <= x <= n,
        0 <= y <= last,
    ensures
        0 <= text_index(n, x, y),
        y == last ==> text_index(n, x, y) == last * (n + 1) + x,
        y < last ==> text_index(n, x, y) <= last * (n + 1) - 1,
        y < last && (x < n || y + 1 < last) ==> text_index(n, x, y) < last * (n + 1) - 1,
        y + 1 == last && x == n ==> text_index(n, x, y) == last * (n + 1) - 1,
        (last + 1) * (n + 1) == last * (n + 1) + n + 1,
{
    assert({
        &&& 0 <= y * (n + 1)
        &&& y == 0 ==> y * (n + 1) == 0
        &&& y < last ==> y * (n + 1) + (n + 1) <= last * (n + 1)
        &&& y + 1 == last ==> y * (n + 1) + (n + 1) == last * (n + 1)
        &&& y + 1 < last ==> y * (n + 1) + (n + 1) + (n + 1) <= last * (n + 1)
        &&& (last + 1) * (n + 1) == last * (n + 1) + n + 1
    }) by (nonlinear_arith)
        requires
            0 <= y <= last,
    ;
}

/// In the text of a grid of `n` columns, whose markers are one character
/// each, the rows start `n + 1` characters apart: each shows its markers
/// in their order, and each but the last is followed by a line feed.
pub proof fn lemma_grid_text(grid: Seq<Seq<Seq<char>>>, n: nat)
    requires
        forall|y: int| 0 <= y < grid.len() ==> (#[trigger] grid[y]).len() == n,
        forall|y: int, x: int|
            0 <= y < grid.len() && 0 <= x < n ==> (#[trigger] grid[y][x]).len() == 1,
    ensures
        grid.len() == 0 ==> grid_text(grid).len() == 0,
        grid.len() > 0 ==> grid_text(grid).len() == grid.len() * (n + 1) - 1,
        forall|x: int, y: int|
            0 <= x <= n && 0 <= y < grid.len() && (x < n || y + 1 < grid.len()) ==> grid_text(
                grid,
            )[#[trigger] text_index(n, x, y)] == (if x < n { grid[y][x][0] } else { '\n' }),
    decreases grid.len(),
{
    if grid.len() > 0 {
        let above = grid.drop_last();
        let last = grid.len() - 1;
        lemma_grid_text(above, n);
        lemma_row_text(grid.last());
        reveal_strlit("\n");
        lemma_text_index(n, 0, last, last);
        assert("\n"@.len() == 1 && "\n"@[0] == '\n');
        assert forall|x: int, y: int|
            0 <= x <= n && 0 <= y < grid.len() && (x < n || y + 1 < grid.len()) implies grid_text(
            grid,
        )[#[trigger] text_index(n, x, y)] == (if x < n { grid[y][x][0] } else { '\n' }) by {
            let i = text_index(n, x, y);
            let text = grid_text(grid);
            lemma_text_index(n, x, y, last);
            if last == 0 {
                assert(text == row_text(grid.last()));
            } else {
                let upper = grid_text(above);
                assert(text == upper + "\n"@ + row_text(grid.last()));
                assert(upper.len() == last * (n + 1) - 1);
                if y == last {
                    assert(text[i] == row_text(grid.last())[x]);
                } else if x == n && y + 1 == last {
                    assert(text[i] == "\n"@[0]);
                } else {
                    assert(text[i] == upper[i]);
                    assert(above[y] == grid[y]);
                }
            }
        }
    }
}

impl Game {
    /// The text of a board of side `n` has `n` lines of `n` characters,
    /// parted by line feeds: line `y` shows the markers of the cells
    /// `(0, y)` to `(n - 1, y)`, and no line feed follows the last line.
    pub proof fn lemma_text_layout(self)
        ensures
            self.board_size == 0 ==> self.text().len() == 0,
            self.board_size > 0 ==> self.text().len() == self.board_size * (self.board_size + 1)
                - 1,
            forall|x: int, y: int|
                0 <= x <= self.board_size && 0 <= y < self.board_size && (x < self.board_size || y
                    + 1 < self.board_size) ==> self.text()[#[trigger] text_index(
                    self.board_size as nat,
                    x,
                    y,
                )] == (if x < self.board_size {
                    self.glyph(Point { x: x as usize, y: y as usize })[0]
                } else {
                    '\n'
                }),
    {
        lemma_markers();
        lemma_grid_text(self.grid(), self.board_size as nat);
    }
}

impl State {
    /// Makes a board of the game's size on which every cell is empty.
    pub fn gen_empty_board_vec(&self) -> (board: Vec<Vec<&'static str>>)
        ensures
            board.deep_view() == blank_grid(self.board_size),
            board.len() == self.board_size,
            forall|y: int| 0 <= y < board.len() ==> (#[trigger] board[y]).len() == self.board_size,
    {
        let n = self.board_size;
        let mut board: Vec<Vec<&'static str>> = Vec::new();
        let mut y: usize = 0;
        while y < n
            invariant
                y <= n,
                board.len() == y,
                forall|j: int| 0 <= j < y ==> (#[trigger] board[j]).len() == n,
                forall|j: int, i: int|
                    0 <= j < y && 0 <= i < n ==> (#[trigger] board[j][i])@ == CELL_EMPTY@,
            decreases n - y,
        {
            let mut row: Vec<&'static str> = Vec::new();
            let mut x: usize = 0;
            while x < n
                invariant
                    x <= n,
                    row.len() == x,
                    forall|i: int| 0 <= i < x ==> (#[trigger] row[i])@ == CELL_EMPTY@,
                decreases n - x,
            {
                row.push(CELL_EMPTY);
                x += 1;
            }
            board.push(row);
            y += 1;
        }
        assert(board.deep_view() =~~= blank_grid(n));
        board
    }

    /// Draws the game as a grid of markers: the snake first, then its head,
    /// then the food.
    pub fn to_board_vec(&self) -> (board: Vec<Vec<&'static str>>)
        requires
            self@.on_board(),
        ensures
            board.deep_view() == self@.grid(),
            board.len() == self.board_size,
            forall|y: int| 0 <= y < board.len() ==> (#[trigger] board[y]).len() == self.board_size,
    {
        let n = self.board_size;
        let mut board = self.gen_empty_board_vec();
        assert forall|j: int, i: int| 0 <= j < n && 0 <= i < n implies (#[trigger] board[j][i])@
            == CELL_EMPTY@ by {
            assert(board.deep_view()[j][i] == CELL_EMPTY@);
        }
        let mut k: usize = 0;
        while k < self.snake.len()
            invariant
                k <= self.snake.len(),
                n == self.board_size,
                self@.on_board(),
                board.len() == n,
                forall|j: int| 0 <= j < n ==> (#[trigger] board[j]).len() == n,
                forall|j: int, i: int|
                    0 <= j < n && 0 <= i < n ==> (#[trigger] board[j][i])@ == (if self.snake@.take(
                        k as int,
                    ).contains(Point { x: i as usize, y: j as usize }) {
                        CELL_SNAKE_TAIL@
                    } else {
                        CELL_EMPTY@
                    }),
            decreases self.snake.len() - k,
        {
            let s = self.snake[k];
            board[s.y][s.x] = CELL_SNAKE_TAIL;
            proof {
                let before = self.snake@.take(k as int);
                let after = self.snake@.take(k + 1);
                assert forall|p: Point| after.contains(p) <==> before.contains(p) || p == s by {
                    if before.contains(p) {
                        let w = choose|w: int| 0 <= w < before.len() && before[w] == p;
                        assert(after[w] == p);
                    }
                    if p == s {
                        assert(after[k as int] == p);
                    }
                }
            }
            k += 1;
        }
        assert(self.snake@.take(k as int) =~= self.snake@);
        let head = self.snake[0];
        board[head.y][head.x] = CELL_SNAKE_HEAD;
        board[self.food.y][self.food.x] = CELL_FOOD;
        assert(board.deep_view() =~~= self@.grid());
        board
    }

    /// Draws the game as text that a terminal can show: the rows of the
    /// grid from top to bottom, parted by line feeds.
    pub fn to_board_str(&self) -> (text: String)
        requires
            self@.on_board(),
        ensures
            text@ == self@.text(),
    {
        let board = self.to_board_vec();
        let ghost grid = board.deep_view();
        let mut board_str = String::new();
        let mut y: usize = 0;
        while y < board.len()
            invariant
                y <= board.len(),
                grid == board.deep_view(),
                board_str@ == grid_text(grid.take(y as int)),
            decreases board.len() - y,
        {
            if y > 0 {
                board_str.append("\n");
            }
            let ghost lead = board_str@;
            let row = &board[y];
            let ghost cells = row.deep_view();
            let mut x: usize = 0;
            while x < row.len()
                invariant
                    x <= row.len(),
                    cells == row.deep_view(),
                    board_str@ == lead + row_text(cells.take(x as int)),
                decreases row.len() - x,
            {
                board_str.append(row[x]);
                proof {
                    assert(cells.take(x + 1).drop_last() =~= cells.take(x as int));
                }
                x += 1;
            }
            proof {
                assert(cells.take(x as int) =~= cells);
                assert(grid.take(y + 1).drop_last() =~= grid.take(y as int));
                assert(grid.take(y + 1).last() == cells);
            }
            y += 1;
        }
        assert(grid.take(y as int) =~= grid);
        board_str
    }
}

} // verus!
