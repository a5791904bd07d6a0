//! Placing the food: the free cells of the board, and the choice of one.

use vstd::prelude::*;
use vstd::arithmetic::div_mod::{
    lemma_fundamental_div_mod,
    lemma_fundamental_div_mod_converse,
    lemma_multiply_divide_lt,
};
use vstd::seq_lib::seq_to_set_is_finite;
use vstd::set_lib::{lemma_int_range, lemma_len_subset, set_int_range};
use crate::board::lemma_markers;
use crate::model::Game;
use crate::state::{Point, State, CELL_EMPTY};

verus! {

/// The `k`-th cell of a board of side `n`, counting along the rows from the
/// top left corner.
pub open spec fn cell_at(n: usize, k: int) -> Point {
    Point { x: (k % (n as int)) as usize, y: (k / (n as int)) as usize }
}

/// Every cell of a board of side `n`, row after row.
pub open spec fn all_cells(n: usize) -> Seq<Point> {
    Seq::new((n * n) as nat, |k: int| cell_at(n, k))
}

/// Whether `pick` can choose one of any positive number of things: it takes
/// every count above zero and answers with an index below the count.
pub open spec fn picks_in_range<F: Fn(usize) -> usize>(pick: F) -> bool {
    &&& forall|n: usize| n > 0 ==> call_requires(pick, (n,))
    &&& forall|n: usize, i: usize| call_ensures(pick, (n,), i) ==> i < n
}

impl Game {
    /// Whether `p` holds neither the food nor a segment of the snake.
    pub open spec fn is_free(self, p: Point) -> bool {
        p != self.food && !self.snake.contains(p)
    }

    /// [`Game::is_free`] as a predicate on points.
    pub open spec fn free_pred(self) -> spec_fn(Point) -> bool {
        |p: Point| self.is_free(p)
    }

    /// The free cells of the board, row after row.
    pub open spec fn free_cells(self) -> Seq<Point> {
        all_cells(self.board_size).filter(self.free_pred())
    }

    /// Whether `food` is the free cell that `pick` may choose.
    pub open spec fn picked<F: Fn(usize) -> usize>(self, pick: F, food: Point) -> bool {
        exists|i: usize|
            {
                &&& #[trigger] call_ensures(pick, (self.free_cells().len() as usize,), i)
                &&& i < self.free_cells().len()
                &&& food == self.free_cells()[i as int]
            }
    }
}

/// On a board of side `n`, the cell `(x, y)` is cell number `y * n + x`.
pub proof fn lemma_cell_number(n: usize, x: usize, y: usize)
    requires
        x < n,
        y < n,
    ensures
        0 <= y * n + x < n * n,
        cell_at(n, y * n + x) == (Point { x, y }),
{
    assert(0 <= y * n + x < n * n) by (nonlinear_arith)
        requires
            x < n,
            y < n,
    ;
    lemma_fundamental_div_mod_converse(y * n + x, n as int, y as int, x as int);
}

/// Every cell number below `n * n` names a cell on the board, and the cell
/// gives the number back.
pub proof fn lemma_cell_on_board(n: usize, k: int)
    requires
        0 <= k < n * n,
    ensures
        cell_at(n, k).on_board(n),
        cell_at(n, k).y * n + cell_at(n, k).x == k,
{
    assert(n > 0) by (nonlinear_arith)
        requires
            0 <= k < n * n,
    ;
    lemma_multiply_divide_lt(k, n as int, n as int);
    lemma_fundamental_div_mod(k, n as int);
    assert((k / (n as int)) * n == n * (k / (n as int))) by (nonlinear_arith);
    assert(0 <= k / (n as int)) by (nonlinear_arith)
        requires
            0 <= k,
            n > 0,
            n * (k / (n as int)) + k % (n as int) == k,
            k % (n as int) < n,
    ;
}

/// Fewer points than a board has cells leave one cell uncovered.
pub proof fn lemma_uncovered_cell(n: usize, points: Seq<Point>)
    requires
        points.len() < n * n,
    ensures
        exists|k: int| 0 <= k < n * n && !points.contains(#[trigger] cell_at(n, k)),
{
    if forall|k: int| 0 <= k < n * n ==> points.contains(#[trigger] cell_at(n, k)) {
        let numbers = points.map_values(|p: Point| p.y * n + p.x);
        let range = set_int_range(0, n * n);
        assert forall|k: int| range.contains(k) implies numbers.to_set().contains(k) by {
            lemma_cell_on_board(n, k);
            let j = choose|j: int| 0 <= j < points.len() && points[j] == cell_at(n, k);
            assert(numbers[j] == k);
        }
        seq_to_set_is_finite(numbers);
        lemma_int_range(0, n * n);
        lemma_len_subset(range, numbers.to_set());
        numbers.lemma_cardinality_of_set();
    }
}

impl Game {
    /// The free cells are the cells on the board that are free.
    pub proof fn lemma_free_cells(self, p: Point)
        ensures
            self.free_cells().contains(p) <==> p.on_board(self.board_size) && self.is_free(p),
    {
        let n = self.board_size;
        let all = all_cells(n);
        if self.free_cells().contains(p) {
            let i = choose|i: int| 0 <= i < self.free_cells().len() && self.free_cells()[i] == p;
            all.lemma_filter_pred(self.free_pred(), i);
            all.lemma_filter_contains_rev(self.free_pred(), p);
            let k = choose|k: int| 0 <= k < all.len() && all[k] == p;
            lemma_cell_on_board(n, k);
        }
        if p.on_board(n) && self.is_free(p) {
            lemma_cell_number(n, p.x, p.y);
            let k = p.y * n + p.x;
            all.lemma_filter_contains(self.free_pred(), k);
        }
    }

    /// While the snake, together with the food where it lies off the snake,
    /// counts fewer points than the board has cells, a free cell is left.
    pub proof fn lemma_free_cell_left(self)
        requires
            self.snake.len() + (if self.snake.contains(self.food) { 0int } else { 1int })
                < self.cells(),
        ensures
            self.free_cells().len() > 0,
    {
        let n = self.board_size;
        let points = if self.snake.contains(self.food) {
            self.snake
        } else {
            self.snake.push(self.food)
        };
        lemma_uncovered_cell(n, points);
        let k = choose|k: int| 0 <= k < n * n && !points.contains(#[trigger] cell_at(n, k));
        let p = cell_at(n, k);
        lemma_cell_on_board(n, k);
        if !self.snake.contains(self.food) {
            assert(points.last() == self.food);
            if self.snake.contains(p) {
                let j = choose|j: int| 0 <= j < self.snake.len() && self.snake[j] == p;
                assert(points[j] == p);
            }
        }
        self.lemma_free_cells(p);
    }

    /// A cell is drawn empty exactly when it is free.
    pub proof fn lemma_empty_glyph(self, p: Point)
        requires
            self.snake.len() > 0,
        ensures
            self.glyph(p) == CELL_EMPTY@ <==> self.is_free(p),
    {
        lemma_markers();
        assert(seq!['-'][0] == '-' && seq!['o'][0] == 'o' && seq!['*'][0] == '*' && seq!['@'][0]
            == '@');
        if p == self.head() {
            assert(self.snake.contains(p));
        }
    }
}

/// Specifies `str::eq` of the standard library: two string slices compare
/// equal exactly when they hold the same characters.
pub assume_specification[ <str as PartialEq>::eq ](a: &str, b: &str) -> (same: bool)
    ensures
        same == (a@ == b@),
;

/// Calls `rand::Rng::random_range` on the thread's generator `rand::rng()`
/// with the range `0..n`. The contract claims only that the number drawn
/// lies in that range, and nothing of which number it is. The call panics
/// on an empty range, so `n` is positive.
#[verifier::external_body]
pub(crate) fn random_index(n: usize) -> (i: usize)
    requires
        n > 0,
    ensures
        i < n,
{
    rand::Rng::random_range(&mut rand::rng(), 0..n)
}

impl State {
    /// Collects the cells that the board shows as empty, row after row.
    pub fn free_cells(&self) -> (cells: Vec<Point>)
        requires
            self@.on_board(),
        ensures
            cells@ == self@.free_cells(),
    {
        let n = self.board_size;
        let board = self.to_board_vec();
        let ghost grid = board.deep_view();
        let ghost all = all_cells(n);
        let ghost free = self@.free_pred();
        let mut free_cells: Vec<Point> = Vec::new();
        let mut y: usize = 0;
        assert(all.take(0).filter(free) =~= Seq::<Point>::empty());
        while y < n
            invariant
                y <= n,
                n == self.board_size,
                self@.snake.len() > 0,
                board.len() == n,
                grid == board.deep_view(),
                grid == self@.grid(),
                all == all_cells(n),
                free == self@.free_pred(),
                free_cells@ == all.take(y * n).filter(free),
            decreases n - y,
        {
            assert(grid[y as int].len() == n);
            let row = &board[y];
            let mut x: usize = 0;
            while x < n
                invariant
                    x <= n,
                    y < n,
                    n == self.board_size,
                    self@.snake.len() > 0,
                    row.len() == n,
                    row.deep_view() == grid[y as int],
                    grid == self@.grid(),
                    all == all_cells(n),
                    free == self@.free_pred(),
                    free_cells@ == all.take(y * n + x).filter(free),
                decreases n - x,
            {
                let ghost p = Point { x, y };
                proof {
                    lemma_cell_number(n, x, y);
                    self@.lemma_empty_glyph(p);
                    assert(row[x as int]@ == grid[y as int][x as int]);
                    assert(all.take(y * n + x + 1) =~= all.take(y * n + x).push(p));
                    all.take(y * n + x).lemma_filter_push(p, free);
                }
                if *row[x] == *CELL_EMPTY {
                    free_cells.push(Point { x, y });
                }
                x += 1;
            }
            assert((y + 1) * n == y * n + n) by (nonlinear_arith);
            y += 1;
        }
        assert(all.take(y * n) =~= all);
        free_cells
    }

    /// Chooses the cell for new food with `pick`, which is handed the
    /// number of free cells and answers with the index of one of them.
    pub fn gen_food_position_with<F: Fn(usize) -> usize>(&self, pick: F) -> (food: Point)
        requires
            self@.on_board(),
            self@.free_cells().len() > 0,
            picks_in_range(pick),
        ensures
            self@.picked(pick, food),
    {
        let free_cells = self.free_cells();
        let index: usize = pick(free_cells.len());
        assert(call_ensures(pick, (self@.free_cells().len() as usize,), index));
        free_cells[index]
    }

    /// Chooses the cell for new food at random among the free cells.
    pub fn gen_random_food_position(&self) -> (food: Point)
        requires
            self@.on_board(),
            self@.free_cells().len() > 0,
        ensures
            self@.free_cells().contains(food),
    {
        self.gen_food_position_with(random_index)
    }
}

} // verus!
