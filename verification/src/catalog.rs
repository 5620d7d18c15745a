//! The scripted games of a grading session: two that player one wins, two
//! that player two wins, and one that ends in a draw.

use vstd::prelude::*;
use vstd::string::StringExecFns;
use crate::board::{lemma_play_respecting_capacity, play, respects_capacity, COLUMNS, ROWS};
use crate::runner::{initial, Runner};
use crate::tally::{count, count_from, lemma_count_from};

verus! {

/// The number of scenarios of a session.
pub const SCENARIOS: usize = 5;

/// One scripted game: the moves, and the keywords by which the program
/// under test is expected to announce how the game ended.
pub struct Scenario {
    /// The column (1-based) of each move, in order; player one begins.
    pub moves: Vec<usize>,
    /// The keywords, in lowercase.
    pub keywords: Vec<String>,
}

/// The moves of the first game that player one wins.
pub open spec fn first_win_of_player_one() -> Seq<usize> {
    seq![5, 4, 4, 3, 1, 2, 1, 4, 1, 4, 1, 4]
}

/// The moves of the second game that player one wins.
pub open spec fn second_win_of_player_one() -> Seq<usize> {
    seq![
        4, 4, 5, 3, 3, 5, 5, 4, 6, 7, 6, 6, 4, 5, 7, 4, 5, 3, 3, 3, 3, 2, 4, 7, 5, 7, 6, 7, 7, 6, 6,
    ]
}

/// The moves of the first game that player two wins.
pub open spec fn first_win_of_player_two() -> Seq<usize> {
    seq![
        4, 4, 4, 5, 5, 5, 6, 3, 4, 6, 5, 3, 3, 3, 5, 4, 4, 5, 7, 7, 7, 7, 1, 1, 1, 1, 3, 1, 7, 7,
        3, 1, 6, 6,
    ]
}

/// The moves of the second game that player two wins.
pub open spec fn second_win_of_player_two() -> Seq<usize> {
    seq![4, 4, 3, 3, 6, 5, 7, 3, 5, 2, 6, 2, 1, 2, 7, 2]
}

/// The moves of the game that fills the board without a winner.
pub open spec fn drawn_game() -> Seq<usize> {
    seq![
        4, 5, 3, 4, 2, 1, 4, 3, 5, 6, 2, 2, 3, 3, 5, 4, 5, 5, 4, 4, 2, 1, 7, 7, 6, 6, 6, 6, 1, 3,
        3, 1, 1, 7, 7, 2, 7, 5, 6, 7, 2, 1,
    ]
}

/// The moves of scenario `i` of the catalog.
pub open spec fn script_of(i: int) -> Seq<usize> {
    if i == 0 {
        first_win_of_player_one()
    } else if i == 1 {
        second_win_of_player_one()
    } else if i == 2 {
        first_win_of_player_two()
    } else if i == 3 {
        second_win_of_player_two()
    } else {
        drawn_game()
    }
}

/// The keywords of scenario `i` of the catalog: those of a win for the
/// first four, those of a draw for the last.
pub open spec fn keywords_of(i: int) -> Seq<Seq<char>> {
    if i == 0 || i == 1 {
        seq!["win"@, "won"@]
    } else if i == 2 || i == 3 {
        seq!["won"@, "win"@]
    } else {
        seq!["draw"@, "drew"@]
    }
}

/// The two keywords `first` and `second`, in this order.
fn keyword_pair(first: &str, second: &str) -> (k: Vec<String>)
    ensures
        k.deep_view() == seq![first@, second@],
{
    let mut k: Vec<String> = Vec::new();
    k.push(String::from_str(first));
    k.push(String::from_str(second));
    assert(k.deep_view() =~= seq![first@, second@]);
    k
}

/// The scenarios of a session, in the order in which they are run.
pub fn catalog() -> (c: Vec<Scenario>)
    ensures
        c@.len() == SCENARIOS,
        forall|i: int|
            0 <= i < SCENARIOS ==> {
                &&& (#[trigger] c@[i]).moves@ == script_of(i)
                &&& c@[i].keywords.deep_view() == keywords_of(i)
            },
{
    let mut c: Vec<Scenario> = Vec::new();
    let moves: Vec<usize> = vec![5, 4, 4, 3, 1, 2, 1, 4, 1, 4, 1, 4];
    assert(moves@ =~= first_win_of_player_one());
    c.push(Scenario { moves, keywords: keyword_pair("win", "won") });
    let moves: Vec<usize> = vec![
        4, 4, 5, 3, 3, 5, 5, 4, 6, 7, 6, 6, 4, 5, 7, 4, 5, 3, 3, 3, 3, 2, 4, 7, 5, 7, 6, 7, 7, 6, 6,
    ];
    assert(moves@ =~= second_win_of_player_one());
    c.push(Scenario { moves, keywords: keyword_pair("win", "won") });
    let moves: Vec<usize> = vec![
        4, 4, 4, 5, 5, 5, 6, 3, 4, 6, 5, 3, 3, 3, 5, 4, 4, 5, 7, 7, 7, 7, 1, 1, 1, 1, 3, 1, 7, 7,
        3, 1, 6, 6,
    ];
    assert(moves@ =~= first_win_of_player_two());
    c.push(Scenario { moves, keywords: keyword_pair("won", "win") });
    let moves: Vec<usize> = vec![4, 4, 3, 3, 6, 5, 7, 3, 5, 2, 6, 2, 1, 2, 7, 2];
    assert(moves@ =~= second_win_of_player_two());
    c.push(Scenario { moves, keywords: keyword_pair("won", "win") });
    let moves: Vec<usize> = vec![
        4, 5, 3, 4, 2, 1, 4, 3, 5, 6, 2, 2, 3, 3, 5, 4, 5, 5, 4, 4, 2, 1, 7, 7, 6, 6, 6, 6, 1, 3,
        3, 1, 1, 7, 7, 2, 7, 5, 6, 7, 2, 1,
    ];
    assert(moves@ =~= drawn_game());
    c.push(Scenario { moves, keywords: keyword_pair("draw", "drew") });
    c
}

impl Scenario {
    /// A fresh run of this scenario.
    pub fn runner(self) -> (r: Runner)
        ensures
            r@ == initial(self.moves@, self.keywords.deep_view()),
    {
        Runner::new(self.moves, self.keywords)
    }
}

/// The script `first_win_of_player_one` respects the board.
proof fn lemma_first_win_of_player_one_respects_capacity()
    ensures
        respects_capacity(first_win_of_player_one()),
{
    let moves = first_win_of_player_one();
    assert(moves.skip(0) =~= moves);
    assert forall|column: usize| 1 <= column <= COLUMNS implies #[trigger] count(moves, column)
        <= ROWS by {
        lemma_count_from(moves, column, 0);
        assert(count_from(moves, column, 0) <= ROWS) by {
            reveal_with_fuel(count_from, 13);
        }
    }
}

/// The script `second_win_of_player_one` respects the board.
proof fn lemma_second_win_of_player_one_respects_capacity()
    ensures
        respects_capacity(second_win_of_player_one()),
{
    let moves = second_win_of_player_one();
    assert(moves.skip(0) =~= moves);
    assert forall|column: usize| 1 <= column <= COLUMNS implies #[trigger] count(moves, column)
        <= ROWS by {
        lemma_count_from(moves, column, 0);
        assert(count_from(moves, column, 0) <= ROWS) by {
            reveal_with_fuel(count_from, 32);
        }
    }
}

/// The script `first_win_of_player_two` respects the board.
proof fn lemma_first_win_of_player_two_respects_capacity()
    ensures
        respects_capacity(first_win_of_player_two()),
{
    let moves = first_win_of_player_two();
    assert(moves.skip(0) =~= moves);
    assert forall|column: usize| 1 <= column <= COLUMNS implies #[trigger] count(moves, column)
        <= ROWS by {
        lemma_count_from(moves, column, 0);
        assert(count_from(moves, column, 0) <= ROWS) by {
            reveal_with_fuel(count_from, 35);
        }
    }
}

/// The script `second_win_of_player_two` respects the board.
proof fn lemma_second_win_of_player_two_respects_capacity()
    ensures
        respects_capacity(second_win_of_player_two()),
{
    let moves = second_win_of_player_two();
    assert(moves.skip(0) =~= moves);
    assert forall|column: usize| 1 <= column <= COLUMNS implies #[trigger] count(moves, column)
        <= ROWS by {
        lemma_count_from(moves, column, 0);
        assert(count_from(moves, column, 0) <= ROWS) by {
            reveal_with_fuel(count_from, 17);
        }
    }
}

/// The script `drawn_game` respects the board.
#[verifier::rlimit(80)]
proof fn lemma_drawn_game_respects_capacity()
    ensures
        respects_capacity(drawn_game()),
{
    let moves = drawn_game();
    assert(moves.skip(0) =~= moves);
    assert forall|column: usize| 1 <= column <= COLUMNS implies #[trigger] count(moves, column)
        <= ROWS by {
        lemma_count_from(moves, column, 0);
        assert(count_from(moves, column, 0) <= ROWS) by {
            reveal_with_fuel(count_from, 43);
        }
    }
}

/// Every script of the catalog can be played to its end: each move names
/// a column of the board, and no column is asked to take more pieces than
/// it has cells.
pub proof fn lemma_catalog_is_playable(i: int)
    requires
        0 <= i < SCENARIOS,
    ensures
        respects_capacity(script_of(i)),
        play(script_of(i)) is Some,
{
    if i == 0 {
        lemma_first_win_of_player_one_respects_capacity();
    } else if i == 1 {
        lemma_second_win_of_player_one_respects_capacity();
    } else if i == 2 {
        lemma_first_win_of_player_two_respects_capacity();
    } else if i == 3 {
        lemma_second_win_of_player_two_respects_capacity();
    } else {
        lemma_drawn_game_respects_capacity();
    }
    lemma_play_respecting_capacity(script_of(i));
}

} // verus!
