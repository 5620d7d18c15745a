//! The reference board: a 6 x 7 grid on which pieces fall to the lowest free
//! cell of a column.

use vstd::prelude::*;
use crate::tally::{
    count, lemma_count_bounded, lemma_count_positive, lemma_count_step, lemma_count_update,
};

verus! {

/// Number of rows of the grid. Row 0 is the top row, row 5 the bottom row.
pub const ROWS: usize = 6;

/// Number of columns of the grid.
pub const COLUMNS: usize = 7;

/// One of the two players. `One` moves first.
#[derive(Clone, Copy, PartialEq, Eq, Debug, Structural)]
pub enum Player {
    One,
    Two,
}

/// What a cell of the grid holds.
#[derive(Clone, Copy, PartialEq, Eq, Debug, Structural)]
pub enum Cell {
    Empty,
    Player1,
    Player2,
}

/// Why a piece could not be dropped.
#[derive(Clone, Copy, PartialEq, Eq, Debug, Structural)]
pub enum DropError {
    /// The column number is not one of 1..=7.
    OutOfRange,
    /// Every cell of the column already holds a piece.
    ColumnFull,
}

impl Player {
    /// The cell state that a piece of this player leaves behind.
    pub open spec fn piece(self) -> Cell {
        match self {
            Player::One => Cell::Player1,
            Player::Two => Cell::Player2,
        }
    }

    /// The cell state that a piece of this player leaves behind.
    pub fn cell(self) -> (c: Cell)
        ensures
            c == self.piece(),
    {
        match self {
            Player::One => Cell::Player1,
            Player::Two => Cell::Player2,
        }
    }
}

/// A grid has `ROWS` rows of `COLUMNS` cells each.
pub open spec fn well_shaped(g: Seq<Seq<Cell>>) -> bool {
    &&& g.len() == ROWS
    &&& forall|r: int| 0 <= r < ROWS ==> (#[trigger] g[r]).len() == COLUMNS
}

/// The grid without any piece.
pub open spec fn empty_grid() -> Seq<Seq<Cell>> {
    Seq::new(ROWS as nat, |r: int| Seq::new(COLUMNS as nat, |c: int| Cell::Empty))
}

/// Gravity: every cell below a piece holds a piece too, so the pieces of a
/// column form one block that rests on the bottom row.
pub open spec fn settled(g: Seq<Seq<Cell>>) -> bool {
    forall|upper: int, lower: int, c: int|
        0 <= upper < lower < ROWS && 0 <= c < COLUMNS && #[trigger] g[upper][c] != Cell::Empty
            ==> #[trigger] g[lower][c] != Cell::Empty
}

/// No cell of column `c` (0-based) is empty.
pub open spec fn column_full(g: Seq<Seq<Cell>>, c: int) -> bool {
    forall|r: int| 0 <= r < ROWS ==> #[trigger] g[r][c] != Cell::Empty
}

/// Row `r` is the lowest empty cell of column `c` (0-based).
pub open spec fn lands_at(g: Seq<Seq<Cell>>, c: int, r: int) -> bool {
    &&& 0 <= r < ROWS
    &&& g[r][c] == Cell::Empty
    &&& forall|below: int| r < below < ROWS ==> #[trigger] g[below][c] != Cell::Empty
}

/// The grid `g` with cell (`r`, `c`) replaced.
pub open spec fn with_cell(g: Seq<Seq<Cell>>, r: int, c: int, cell: Cell) -> Seq<Seq<Cell>> {
    g.update(r, g[r].update(c, cell))
}

/// The row in which a piece dropped into column `c` (0-based) comes to rest.
/// It means nothing where the column is full.
pub open spec fn landing_row(g: Seq<Seq<Cell>>, c: int) -> int {
    choose|r: int| lands_at(g, c, r)
}

/// The grid after a piece of `player` was dropped into column `column`
/// (1-based), or `None` where the drop is refused: the column number is not
/// one of 1..=7, or the column is full.
pub open spec fn after_drop(g: Seq<Seq<Cell>>, column: int, player: Player) -> Option<
    Seq<Seq<Cell>>,
> {
    if 1 <= column <= COLUMNS && !column_full(g, column - 1) {
        Some(with_cell(g, landing_row(g, column - 1), column - 1, player.piece()))
    } else {
        None
    }
}

/// The player who makes the move with index `i` of a script: the players
/// alternate, and player one makes move 0.
pub open spec fn player_to_move(i: int) -> Player {
    if i % 2 == 0 {
        Player::One
    } else {
        Player::Two
    }
}

/// The grid after the moves of a script were played in order on an empty
/// grid, or `None` where one of them is refused.
pub open spec fn play(moves: Seq<usize>) -> Option<Seq<Seq<Cell>>>
    decreases moves.len(),
{
    if moves.len() == 0 {
        Some(empty_grid())
    } else {
        match play(moves.drop_last()) {
            Some(g) => after_drop(g, moves.last() as int, player_to_move(moves.len() - 1)),
            None => None,
        }
    }
}

/// A column has at most one lowest empty cell, and it has one unless it is
/// full.
pub proof fn lemma_landing_row(g: Seq<Seq<Cell>>, c: int)
    ensures
        !column_full(g, c) ==> lands_at(g, c, landing_row(g, c)),
        forall|r: int| lands_at(g, c, r) ==> r == landing_row(g, c) && !column_full(g, c),
{
    if !column_full(g, c) {
        lemma_lowest_empty(g, c, ROWS as int);
    }
    assert forall|r: int| lands_at(g, c, r) implies r == landing_row(g, c) && !column_full(
        g,
        c,
    ) by {
        let l = landing_row(g, c);
        assert(lands_at(g, c, l));
        if r < l {
            assert(g[l][c] != Cell::Empty);
        } else if l < r {
            assert(g[r][c] != Cell::Empty);
        }
    }
}

/// Where the cells of column `c` from row `bound` down hold pieces and one
/// above them is empty, the column has a lowest empty cell.
proof fn lemma_lowest_empty(g: Seq<Seq<Cell>>, c: int, bound: int)
    requires
        0 <= bound <= ROWS,
        exists|r: int| 0 <= r < bound && g[r][c] == Cell::Empty,
        forall|below: int| bound <= below < ROWS ==> #[trigger] g[below][c] != Cell::Empty,
    ensures
        exists|r: int| lands_at(g, c, r),
    decreases bound,
{
    if g[bound - 1][c] == Cell::Empty {
        assert(lands_at(g, c, bound - 1));
    } else {
        lemma_lowest_empty(g, c, bound - 1);
    }
}

/// Column `c` (0-based) of a grid, from the top row down.
pub open spec fn column_of(g: Seq<Seq<Cell>>, c: int) -> Seq<Cell> {
    Seq::new(ROWS as nat, |r: int| g[r][c])
}

/// The number of empty cells of column `c` (0-based).
pub open spec fn free_cells(g: Seq<Seq<Cell>>, c: int) -> nat {
    count(column_of(g, c), Cell::Empty)
}

/// A script respects the board: each move names one of the columns 1..=7,
/// and no column is named more often than it has cells.
pub open spec fn respects_capacity(moves: Seq<usize>) -> bool {
    &&& forall|i: int| 0 <= i < moves.len() ==> 1 <= #[trigger] moves[i] <= COLUMNS
    &&& forall|column: usize| 1 <= column <= COLUMNS ==> #[trigger] count(moves, column) <= ROWS
}

/// A column is full exactly if it has no empty cell to count.
pub proof fn lemma_full_has_no_free_cell(g: Seq<Seq<Cell>>, c: int)
    ensures
        column_full(g, c) <==> free_cells(g, c) == 0,
        free_cells(g, c) <= ROWS,
{
    let col = column_of(g, c);
    lemma_count_positive(col, Cell::Empty);
    lemma_count_bounded(col, Cell::Empty);
    if !column_full(g, c) {
        let r = choose|r: int| 0 <= r < ROWS && #[trigger] g[r][c] == Cell::Empty;
        assert(col[r] == Cell::Empty);
    }
    if free_cells(g, c) > 0 {
        let r = choose|r: int| 0 <= r < col.len() && col[r] == Cell::Empty;
        assert(g[r][c] == Cell::Empty);
    }
}

/// A piece that lands in a column takes one of its empty cells and leaves
/// the other columns as they were.
pub proof fn lemma_drop_takes_one_cell(g: Seq<Seq<Cell>>, column: int, player: Player, k: int)
    requires
        well_shaped(g),
        after_drop(g, column, player) is Some,
        0 <= k < COLUMNS,
    ensures
        free_cells(after_drop(g, column, player)->0, k) + (if k == column - 1 {
            1nat
        } else {
            0nat
        }) == free_cells(g, k),
{
    let c = column - 1;
    lemma_landing_row(g, c);
    let r = landing_row(g, c);
    let h = after_drop(g, column, player)->0;
    if k == c {
        assert(column_of(h, k) =~= column_of(g, k).update(r, player.piece()));
        lemma_count_update(column_of(g, k), r, player.piece(), Cell::Empty);
    } else {
        assert(column_of(h, k) =~= column_of(g, k));
    }
}

/// A script can be played to its end exactly if it respects the board.
/// The grid that results is settled: in each column the pieces lie one on
/// another from the bottom row up, as many as the script has moves into that
/// column.
pub proof fn lemma_play_respecting_capacity(moves: Seq<usize>)
    ensures
        play(moves) is Some <==> respects_capacity(moves),
        play(moves) matches Some(g) ==> {
            &&& well_shaped(g)
            &&& settled(g)
            &&& forall|column: usize|
                1 <= column <= COLUMNS ==> free_cells(g, column - 1) + #[trigger] count(
                    moves,
                    column,
                ) == ROWS
        },
    decreases moves.len(),
{
    if moves.len() == 0 {
        let g = empty_grid();
        assert forall|column: usize| 1 <= column <= COLUMNS implies free_cells(g, column - 1)
            + #[trigger] count(moves, column) == ROWS by {
            lemma_free_cells_of_empty_grid(column - 1);
        }
    } else {
        let init = moves.drop_last();
        let last = moves.last();
        lemma_play_respecting_capacity(init);
        assert forall|i: int| 0 <= i < init.len() implies init[i] == moves[i] by {}
        match play(init) {
            None => {
                if respects_capacity(moves) {
                    assert forall|i: int| 0 <= i < init.len() implies 1 <= #[trigger] init[i]
                        <= COLUMNS by {
                        assert(init[i] == moves[i]);
                    }
                    assert forall|column: usize| 1 <= column <= COLUMNS implies #[trigger] count(
                        init,
                        column,
                    ) <= ROWS by {
                        assert(count(moves, column) <= ROWS);
                    }
                    assert(false);
                }
            },
            Some(g) => {
                let player = player_to_move(moves.len() - 1);
                if 1 <= last <= COLUMNS {
                    lemma_full_has_no_free_cell(g, last - 1);
                    assert(free_cells(g, last - 1) + count(init, last) == ROWS);
                }
                match after_drop(g, last as int, player) {
                    None => {
                        if respects_capacity(moves) {
                            assert(1 <= moves[moves.len() - 1] <= COLUMNS);
                            assert(count(moves, last) <= ROWS);
                            assert(false);
                        }
                    },
                    Some(h) => {
                        lemma_landing_row(g, last - 1);
                        lemma_landing_keeps_settled(
                            g,
                            last - 1,
                            landing_row(g, last - 1),
                            player.piece(),
                        );
                        assert forall|column: usize| 1 <= column <= COLUMNS implies free_cells(
                            h,
                            column - 1,
                        ) + #[trigger] count(moves, column) == ROWS by {
                            lemma_drop_takes_one_cell(g, last as int, player, column - 1);
                            assert(free_cells(g, column - 1) + count(init, column) == ROWS);
                        }
                        assert forall|i: int| 0 <= i < moves.len() implies 1 <= #[trigger] moves[i]
                            <= COLUMNS by {
                            if i < init.len() {
                                assert(init[i] == moves[i]);
                            }
                        }
                        assert forall|column: usize|
                            1 <= column <= COLUMNS implies #[trigger] count(moves, column)
                            <= ROWS by {
                            assert(free_cells(h, column - 1) + count(moves, column) == ROWS);
                        }
                    },
                }
            },
        }
    }
}

/// Every cell of a column of the empty grid is empty.
proof fn lemma_free_cells_of_empty_grid(c: int)
    requires
        0 <= c < COLUMNS,
    ensures
        free_cells(empty_grid(), c) == ROWS,
{
    let col = column_of(empty_grid(), c);
    assert(col =~= Seq::new(ROWS as nat, |r: int| Cell::Empty));
    lemma_count_of_constant(ROWS as nat);
}

/// A run of empty cells holds as many empty cells as it is long.
proof fn lemma_count_of_constant(n: nat)
    ensures
        count(Seq::new(n, |r: int| Cell::Empty), Cell::Empty) == n,
    decreases n,
{
    if n > 0 {
        assert(Seq::new(n, |r: int| Cell::Empty).drop_last() =~= Seq::new(
            (n - 1) as nat,
            |r: int| Cell::Empty,
        ));
        lemma_count_of_constant((n - 1) as nat);
    }
}

/// The 6 x 7 reference board.
pub struct Board {
    cells: Vec<Cell>,
}

impl View for Board {
    type V = Seq<Seq<Cell>>;

    closed spec fn view(&self) -> Seq<Seq<Cell>> {
        grid_of(self.cells@)
    }
}

/// The grid that a row-major sequence of cells stands for.
spec fn grid_of(cells: Seq<Cell>) -> Seq<Seq<Cell>> {
    Seq::new(ROWS as nat, |r: int| Seq::new(COLUMNS as nat, |c: int| cells[r * COLUMNS + c]))
}

/// A piece that comes to rest on the lowest empty cell of a column keeps
/// the grid settled.
pub proof fn lemma_landing_keeps_settled(g: Seq<Seq<Cell>>, c: int, r: int, cell: Cell)
    requires
        well_shaped(g),
        settled(g),
        0 <= c < COLUMNS,
        lands_at(g, c, r),
    ensures
        well_shaped(with_cell(g, r, c, cell)),
        settled(with_cell(g, r, c, cell)),
{
    let h = with_cell(g, r, c, cell);
    assert forall|upper: int, lower: int, k: int|
        0 <= upper < lower < ROWS && 0 <= k < COLUMNS && #[trigger] h[upper][k]
            != Cell::Empty implies #[trigger] h[lower][k] != Cell::Empty by {
        if k == c && upper == r {
            assert(g[lower][k] != Cell::Empty);
        } else {
            assert(g[upper][k] != Cell::Empty);
            assert(g[lower][k] != Cell::Empty);
        }
    }
}

impl Board {
    /// Every board holds `ROWS` x `COLUMNS` cells, and its pieces are
    /// settled.
    #[verifier::type_invariant]
    spec fn inv(self) -> bool {
        &&& self.cells@.len() == ROWS * COLUMNS
        &&& settled(grid_of(self.cells@))
    }

    /// A board without pieces.
    pub fn new() -> (b: Board)
        ensures
            b@ == empty_grid(),
            well_shaped(b@),
            settled(b@),
    {
        let mut cells: Vec<Cell> = Vec::new();
        let mut i: usize = 0;
        while i < ROWS * COLUMNS
            invariant
                i <= ROWS * COLUMNS,
                cells@.len() == i,
                forall|k: int| 0 <= k < i ==> cells@[k] == Cell::Empty,
            decreases ROWS * COLUMNS - i,
        {
            cells.push(Cell::Empty);
            i += 1;
        }
        let b = Board { cells };
        assert(b@ =~~= empty_grid());
        b
    }

    /// The cell in row `row` (0 is the top) and column `col` (0 is the left).
    pub fn cell(&self, row: usize, col: usize) -> (c: Cell)
        requires
            row < ROWS,
            col < COLUMNS,
        ensures
            c == self@[row as int][col as int],
            well_shaped(self@),
            settled(self@),
    {
        proof {
            use_type_invariant(self);
        }
        self.cells[row * COLUMNS + col]
    }

    /// Drops a piece of `player` into column `column` (1-based). The piece
    /// comes to rest in the lowest empty cell of that column, whose row is
    /// returned. A column number outside 1..=7 and a column without an empty
    /// cell are refused, and the board is then left as it was.
    pub fn drop_piece(&mut self, column: usize, player: Player) -> (result: Result<
        usize,
        DropError,
    >)
        ensures
            well_shaped(final(self)@),
            settled(final(self)@),
            result is Ok <==> 1 <= column <= COLUMNS && !column_full(old(self)@, column - 1),
            after_drop(old(self)@, column as int, player) == (if result is Ok {
                Some(final(self)@)
            } else {
                None
            }),
            match result {
                Ok(row) => {
                    &&& lands_at(old(self)@, column - 1, row as int)
                    &&& final(self)@ == with_cell(
                        old(self)@,
                        row as int,
                        column - 1,
                        player.piece(),
                    )
                },
                Err(DropError::OutOfRange) => {
                    &&& !(1 <= column <= COLUMNS)
                    &&& final(self)@ == old(self)@
                },
                Err(DropError::ColumnFull) => {
                    &&& 1 <= column <= COLUMNS
                    &&& column_full(old(self)@, column - 1)
                    &&& final(self)@ == old(self)@
                },
            },
    {
        proof {
            use_type_invariant(&*self);
        }
        if column < 1 || column > COLUMNS {
            return Err(DropError::OutOfRange);
        }
        let c: usize = column - 1;
        let mut row: usize = ROWS;
        while row > 0 && !matches!(self.cells[(row - 1) * COLUMNS + c], Cell::Empty)
            invariant
                row <= ROWS,
                c < COLUMNS,
                self.cells@.len() == ROWS * COLUMNS,
                *self == *old(self),
                forall|below: int|
                    row <= below < ROWS ==> #[trigger] self@[below][c as int] != Cell::Empty,
            decreases row,
        {
            row -= 1;
        }
        if row == 0 {
            return Err(DropError::ColumnFull);
        }
        let r: usize = row - 1;
        let piece = player.cell();
        proof {
            let before = self@;
            let at = r * COLUMNS + c;
            assert(before[r as int][c as int] == Cell::Empty);
            lemma_landing_row(before, c as int);
            assert forall|v: Cell| #[trigger]
                grid_of(self.cells@.update(at, v)) == with_cell(before, r as int, c as int, v)
                    && settled(with_cell(before, r as int, c as int, v)) by {
                lemma_landing_keeps_settled(before, c as int, r as int, v);
                assert(grid_of(self.cells@.update(at, v)) =~~= with_cell(
                    before,
                    r as int,
                    c as int,
                    v,
                ));
            }
        }
        self.cells[r * COLUMNS + c] = piece;
        Ok(r)
    }

    /// For each row, from the top row down, the number of pieces of
    /// `player` in it.
    pub fn piece_counts_per_row(&self, player: Player) -> (counts: Vec<usize>)
        ensures
            counts@.len() == ROWS,
            forall|r: int|
                0 <= r < ROWS ==> (#[trigger] counts@[r]) == count(self@[r], player.piece()),
            well_shaped(self@),
            settled(self@),
    {
        proof {
            use_type_invariant(self);
        }
        let piece = player.cell();
        let mut counts: Vec<usize> = Vec::new();
        let mut row: usize = 0;
        while row < ROWS
            invariant
                row <= ROWS,
                self.cells@.len() == ROWS * COLUMNS,
                piece == player.piece(),
                counts@.len() == row,
                forall|r: int| 0 <= r < row ==> (#[trigger] counts@[r]) == count(self@[r], piece),
            decreases ROWS - row,
        {
            let mut n: usize = 0;
            let mut col: usize = 0;
            while col < COLUMNS
                invariant
                    row < ROWS,
                    col <= COLUMNS,
                    self.cells@.len() == ROWS * COLUMNS,
                    n <= col,
                    n == count(self@[row as int].take(col as int), piece),
                decreases COLUMNS - col,
            {
                proof {
                    lemma_count_step(self@[row as int], piece, col as int);
                }
                if self.cells[row * COLUMNS + col] == piece {
                    n += 1;
                }
                col += 1;
            }
            assert(self@[row as int].take(COLUMNS as int) =~= self@[row as int]);
            counts.push(n);
            row += 1;
        }
        counts
    }
}

/// Every board has `ROWS` rows of `COLUMNS` cells.
pub proof fn lemma_board_shape(board: &Board)
    ensures
        well_shaped(board@),
{
}

} // verus!
