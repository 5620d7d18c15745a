//! The board as an oracle for what the program under test prints: each of
//! the first six lines of a batch must show as many markers of either player
//! as the matching row of the reference board holds pieces. Where on the
//! line the markers stand is not examined.

use vstd::prelude::*;
use vstd::string::StringExecFns;
use crate::board::{Board, Cell, Player, COLUMNS, ROWS};
use crate::tally::{count, lemma_count_concat, lemma_count_single};
use crate::text::{count_matches, lemma_occurrences_of_one_char, occurrences};

verus! {

/// The text by which the program under test shows a piece of `player`.
pub open spec fn marker_of(player: Player) -> Seq<char> {
    match player {
        Player::One => seq!['R'],
        Player::Two => seq!['Y'],
    }
}

/// `line` shows as many markers of either player as `row` holds pieces.
pub open spec fn row_agrees(line: Seq<char>, row: Seq<Cell>) -> bool {
    &&& occurrences(line, marker_of(Player::One)) == count(row, Cell::Player1)
    &&& occurrences(line, marker_of(Player::Two)) == count(row, Cell::Player2)
}

/// The first `ROWS` lines of `batch` agree, row by row from the top, with
/// the grid `g`.
pub open spec fn batch_agrees(batch: Seq<Seq<char>>, g: Seq<Seq<Cell>>) -> bool {
    &&& batch.len() >= ROWS
    &&& forall|r: int| 0 <= r < ROWS ==> row_agrees(#[trigger] batch[r], g[r])
}

/// The text by which the program under test shows a piece of `player`.
pub fn marker(player: Player) -> (m: &'static str)
    ensures
        m@ == marker_of(player),
{
    proof {
        reveal_strlit("R");
        reveal_strlit("Y");
    }
    match player {
        Player::One => {
            assert("R"@ =~= seq!['R']);
            "R"
        },
        Player::Two => {
            assert("Y"@ =~= seq!['Y']);
            "Y"
        },
    }
}

/// Whether `buffer` shows the state of `board`: it has at least `ROWS`
/// lines, and each of the first `ROWS` shows the right number of markers of
/// each player.
pub fn matches(buffer: &Vec<String>, board: &Board) -> (ok: bool)
    ensures
        ok == batch_agrees(buffer.deep_view(), board@),
{
    if buffer.len() < ROWS {
        return false;
    }
    let ones = board.piece_counts_per_row(Player::One);
    let twos = board.piece_counts_per_row(Player::Two);
    let mark_one = marker(Player::One);
    let mark_two = marker(Player::Two);
    let mut r: usize = 0;
    while r < ROWS
        invariant
            r <= ROWS,
            buffer.len() >= ROWS,
            ones@.len() == ROWS,
            twos@.len() == ROWS,
            mark_one@ == marker_of(Player::One),
            mark_two@ == marker_of(Player::Two),
            forall|i: int|
                0 <= i < ROWS ==> (#[trigger] ones@[i]) == count(board@[i], Cell::Player1),
            forall|i: int|
                0 <= i < ROWS ==> (#[trigger] twos@[i]) == count(board@[i], Cell::Player2),
            forall|i: int| 0 <= i < r ==> row_agrees(#[trigger] buffer.deep_view()[i], board@[i]),
        decreases ROWS - r,
    {
        let line = buffer[r].as_str();
        if count_matches(line, mark_one) != ones[r] || count_matches(line, mark_two) != twos[r] {
            assert(!row_agrees(buffer.deep_view()[r as int], board@[r as int]));
            return false;
        }
        r += 1;
    }
    true
}

/// The text that shows one cell: the marker of the player whose piece it
/// holds, or a blank.
pub open spec fn cell_text(cell: Cell) -> Seq<char> {
    match cell {
        Cell::Empty => seq![' '],
        Cell::Player1 => marker_of(Player::One),
        Cell::Player2 => marker_of(Player::Two),
    }
}

/// The line that shows `row`: the text of each cell from left to right,
/// with a blank behind each.
pub open spec fn row_text(row: Seq<Cell>) -> Seq<char>
    decreases row.len(),
{
    if row.len() == 0 {
        Seq::empty()
    } else {
        row_text(row.drop_last()) + cell_text(row.last()) + seq![' ']
    }
}

/// The text that shows one cell.
fn cell_str(cell: Cell) -> (t: &'static str)
    ensures
        t@ == cell_text(cell),
{
    match cell {
        Cell::Empty => {
            proof {
                reveal_strlit(" ");
            }
            assert(" "@ =~= seq![' ']);
            " "
        },
        Cell::Player1 => marker(Player::One),
        Cell::Player2 => marker(Player::Two),
    }
}

/// The lines that show `board`, from the top row down.
pub fn render(board: &Board) -> (lines: Vec<String>)
    ensures
        lines@.len() == ROWS,
        forall|r: int| 0 <= r < ROWS ==> (#[trigger] lines@[r])@ == row_text(board@[r]),
{
    let mut lines: Vec<String> = Vec::new();
    let mut r: usize = 0;
    while r < ROWS
        invariant
            r <= ROWS,
            lines@.len() == r,
            forall|i: int| 0 <= i < r ==> (#[trigger] lines@[i])@ == row_text(board@[i]),
        decreases ROWS - r,
    {
        let mut line = String::new();
        let mut c: usize = 0;
        assert(board@[r as int].take(0) =~= Seq::<Cell>::empty());
        while c < COLUMNS
            invariant
                r < ROWS,
                c <= COLUMNS,
                line@ == row_text(board@[r as int].take(c as int)),
            decreases COLUMNS - c,
        {
            let cell = board.cell(r, c);
            proof {
                reveal_strlit(" ");
                let row = board@[r as int];
                crate::board::lemma_board_shape(board);
                assert(row.take(c + 1).drop_last() =~= row.take(c as int));
                assert(row.take(c + 1).last() == cell);
                assert(" "@ =~= seq![' ']);
            }
            line.append(cell_str(cell));
            line.append(" ");
            c += 1;
        }
        proof {
            crate::board::lemma_board_shape(board);
            assert(board@[r as int].take(COLUMNS as int) =~= board@[r as int]);
        }
        lines.push(line);
        r += 1;
    }
    lines
}

/// The one character that the marker of `player` is made of.
pub open spec fn marker_char(player: Player) -> char {
    marker_of(player)[0]
}

/// The line that shows a row holds the marker of a player once for each of
/// the player's pieces in the row.
pub proof fn lemma_row_text_shows_pieces(row: Seq<Cell>, player: Player)
    ensures
        occurrences(row_text(row), marker_of(player)) == count(row, player.piece()),
    decreases row.len(),
{
    let m = marker_char(player);
    assert(marker_of(player) =~= seq![m]);
    lemma_occurrences_of_one_char(row_text(row), m);
    if row.len() > 0 {
        let init = row_text(row.drop_last());
        let cell = cell_text(row.last());
        lemma_row_text_shows_pieces(row.drop_last(), player);
        lemma_occurrences_of_one_char(init, m);
        lemma_count_concat(init + cell, seq![' '], m);
        lemma_count_concat(init, cell, m);
        lemma_count_single(' ', m);
        match row.last() {
            Cell::Empty => {
                lemma_count_single(' ', m);
            },
            Cell::Player1 => {
                assert(cell =~= seq!['R']);
                lemma_count_single('R', m);
            },
            Cell::Player2 => {
                assert(cell =~= seq!['Y']);
                lemma_count_single('Y', m);
            },
        }
    }
}

/// A batch whose first `ROWS` lines show the rows of a grid as `row_text`
/// writes them agrees with that grid, whatever else the batch holds.
pub proof fn lemma_own_rendering_agrees(g: Seq<Seq<Cell>>, batch: Seq<Seq<char>>)
    requires
        batch.len() >= ROWS,
        forall|r: int| 0 <= r < ROWS ==> #[trigger] batch[r] == row_text(g[r]),
    ensures
        batch_agrees(batch, g),
{
    assert forall|r: int| 0 <= r < ROWS implies row_agrees(#[trigger] batch[r], g[r]) by {
        lemma_row_text_shows_pieces(g[r], Player::One);
        lemma_row_text_shows_pieces(g[r], Player::Two);
    }
}

} // verus!
