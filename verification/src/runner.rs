//! One scripted game, run as a turn-taking protocol with the program under
//! test. The runner never touches the program itself: it says what has to be
//! done next (`Action`), is told what came of it (`Event`), and decides. A
//! full batch of output is always read before the next move is written.

use vstd::prelude::*;
use crate::board::{after_drop, play, player_to_move, settled, well_shaped, Board, Cell, Player};
use crate::matcher::{announces, batch_announces};
use crate::oracle::batch_agrees;
use crate::text::{decimal, decimal_text};

verus! {

/// The number of lines that the program under test prints for each turn:
/// one for each row of the board, and a prompt.
pub const LINES_PER_BATCH: usize = 7;

/// Where a run stands.
#[derive(Clone, Copy, PartialEq, Eq, Debug, Structural)]
pub enum Phase {
    /// The program under test has not been started yet.
    Init,
    /// The program is printing: lines are read until the batch is full.
    AwaitingOutput,
    /// The program has prompted and waits for a move.
    AwaitingInput,
    /// The run is over.
    Done,
}

/// How the conversation with the program under test went out of step.
#[derive(Clone, Copy, PartialEq, Eq, Debug, Structural)]
pub enum Desync {
    /// A batch did not show the pieces of the reference board.
    BoardMismatch,
    /// The output ended before a batch was full.
    StreamEnded,
    /// The program under test took too long to print a line or to take one.
    TimedOut,
    /// An event arrived that does not answer the action that was due.
    OutOfTurn,
}

/// Why a run was given up.
#[derive(Clone, Copy, PartialEq, Eq, Debug, Structural)]
pub enum ScenarioError {
    /// The program under test could not be started.
    ProcessSpawnFailure,
    /// The program under test and the script went out of step.
    ProtocolDesync(Desync),
    /// The script holds a move that the reference board refuses.
    MalformedScript,
}

/// How a run ended.
#[derive(Clone, Copy, PartialEq, Eq, Debug, Structural)]
pub enum Outcome {
    /// The run went through and an outcome keyword was seen.
    Passed,
    /// The run went through and no outcome keyword was seen.
    NotDetected,
    /// The run was given up.
    Failed(ScenarioError),
}

/// What the harness reports to the runner.
#[derive(PartialEq, Eq, Debug)]
pub enum Event {
    /// The program under test was started.
    Spawned,
    /// The program under test could not be started.
    SpawnFailed,
    /// One line of output was read.
    Line(String),
    /// The output ended.
    EndOfStream,
    /// The line handed out for writing was written.
    Written,
    /// The read or the write that was due did not come to an end in time.
    TimedOut,
}

/// What the harness has to do next.
#[derive(PartialEq, Eq, Debug)]
pub enum Action {
    /// Start the program under test.
    Spawn,
    /// Read one line of its output.
    ReadLine,
    /// Write this text, and a line feed behind it, to its input.
    WriteLine(String),
    /// Stop the program under test: the run is over, and this is how it
    /// ended.
    Stop(Outcome),
}

/// The state of a run as a mathematical value.
pub struct RunnerView {
    /// The script: the column (1-based) of each move, in order.
    pub moves: Seq<usize>,
    /// The keywords that announce the outcome the script leads to.
    pub keywords: Seq<Seq<char>>,
    /// The reference grid.
    pub grid: Seq<Seq<Cell>>,
    /// The number of moves written so far.
    pub sent: nat,
    /// The lines read so far of the batch that is being read.
    pub pending: Seq<Seq<char>>,
    /// Where the run stands.
    pub phase: Phase,
    /// Whether a batch has announced the outcome.
    pub announced: bool,
    /// Why the run was given up, if it was.
    pub failure: Option<ScenarioError>,
}

/// The state in which a run of `moves` with `keywords` begins.
pub open spec fn initial(moves: Seq<usize>, keywords: Seq<Seq<char>>) -> RunnerView {
    RunnerView {
        moves,
        keywords,
        grid: crate::board::empty_grid(),
        sent: 0,
        pending: Seq::empty(),
        phase: Phase::Init,
        announced: false,
        failure: None,
    }
}

/// The state `s`, given up for the reason `e`.
pub open spec fn failed(s: RunnerView, e: ScenarioError) -> RunnerView {
    RunnerView { phase: Phase::Done, failure: Some(e), pending: Seq::empty(), ..s }
}

/// The state after `batch` was read in full in state `s`. While moves are
/// left, the batch must show the reference grid; it is then searched for the
/// announcement, and the next move is due. The batch behind the last move is
/// only searched for the announcement, and ends the run.
pub open spec fn after_batch(s: RunnerView, batch: Seq<Seq<char>>) -> RunnerView {
    let announced = s.announced || batch_announces(s.keywords, batch);
    if s.sent < s.moves.len() {
        if batch_agrees(batch, s.grid) {
            RunnerView { phase: Phase::AwaitingInput, pending: Seq::empty(), announced, ..s }
        } else {
            failed(s, ScenarioError::ProtocolDesync(Desync::BoardMismatch))
        }
    } else {
        RunnerView { phase: Phase::Done, pending: Seq::empty(), announced, ..s }
    }
}

/// The state that follows `s` on event `e`. An event that does not answer
/// the action that is due in `s` gives the run up, as does output that ends
/// or stalls, a batch that does not show the reference grid, and a move that
/// the grid refuses. A run that is over stays as it is.
pub open spec fn step_spec(s: RunnerView, e: Event) -> RunnerView {
    match s.phase {
        Phase::Init => match e {
            Event::Spawned => RunnerView { phase: Phase::AwaitingOutput, ..s },
            Event::SpawnFailed => failed(s, ScenarioError::ProcessSpawnFailure),
            _ => failed(s, ScenarioError::ProtocolDesync(Desync::OutOfTurn)),
        },
        Phase::AwaitingOutput => match e {
            Event::Line(line) => {
                let batch = s.pending.push(line@);
                if batch.len() < LINES_PER_BATCH {
                    RunnerView { pending: batch, ..s }
                } else {
                    after_batch(s, batch)
                }
            },
            Event::EndOfStream => failed(s, ScenarioError::ProtocolDesync(Desync::StreamEnded)),
            Event::TimedOut => failed(s, ScenarioError::ProtocolDesync(Desync::TimedOut)),
            _ => failed(s, ScenarioError::ProtocolDesync(Desync::OutOfTurn)),
        },
        Phase::AwaitingInput => match e {
            Event::Written => match after_drop(
                s.grid,
                s.moves[s.sent as int] as int,
                player_to_move(s.sent as int),
            ) {
                Some(grid) => RunnerView {
                    grid,
                    sent: s.sent + 1,
                    phase: Phase::AwaitingOutput,
                    ..s
                },
                None => failed(s, ScenarioError::MalformedScript),
            },
            Event::TimedOut => failed(s, ScenarioError::ProtocolDesync(Desync::TimedOut)),
            _ => failed(s, ScenarioError::ProtocolDesync(Desync::OutOfTurn)),
        },
        Phase::Done => s,
    }
}

/// The state reached from `s` by the events `events`, in order.
pub open spec fn run(s: RunnerView, events: Seq<Event>) -> RunnerView
    decreases events.len(),
{
    if events.len() == 0 {
        s
    } else {
        step_spec(run(s, events.drop_last()), events.last())
    }
}

/// How the run in state `s` ended, or `None` while it goes on.
pub open spec fn outcome_of(s: RunnerView) -> Option<Outcome> {
    if s.phase != Phase::Done {
        None
    } else {
        match s.failure {
            Some(e) => Some(Outcome::Failed(e)),
            None => if s.announced {
                Some(Outcome::Passed)
            } else {
                Some(Outcome::NotDetected)
            },
        }
    }
}

/// The score of a run in state `s`: 1 where it has passed, else 0.
pub open spec fn score_of(s: RunnerView) -> nat {
    if outcome_of(s) == Some(Outcome::Passed) {
        1
    } else {
        0
    }
}

/// `a` is the action that is due in state `s`.
pub open spec fn action_fits(a: Action, s: RunnerView) -> bool {
    match s.phase {
        Phase::Init => a == Action::Spawn,
        Phase::AwaitingOutput => a == Action::ReadLine,
        Phase::AwaitingInput => a matches Action::WriteLine(text) && text@ == decimal(
            s.moves[s.sent as int] as nat,
        ),
        Phase::Done => outcome_of(s) == Some(a->Stop_0) && a is Stop,
    }
}

/// What holds of every state that a run passes through.
pub open spec fn consistent(s: RunnerView) -> bool {
    &&& s.sent <= s.moves.len()
    &&& s.phase == Phase::AwaitingInput ==> s.sent < s.moves.len()
    &&& s.pending.len() < LINES_PER_BATCH
    &&& s.phase != Phase::AwaitingOutput ==> s.pending.len() == 0
    &&& s.failure is Some ==> s.phase == Phase::Done
    &&& play(s.moves.take(s.sent as int)) == Some(s.grid)
}

/// One scripted game against the program under test.
pub struct Runner {
    moves: Vec<usize>,
    keywords: Vec<String>,
    board: Board,
    sent: usize,
    pending: Vec<String>,
    phase: Phase,
    announced: bool,
    failure: Option<ScenarioError>,
}

impl View for Runner {
    type V = RunnerView;

    closed spec fn view(&self) -> RunnerView {
        RunnerView {
            moves: self.moves@,
            keywords: self.keywords.deep_view(),
            grid: self.board@,
            sent: self.sent as nat,
            pending: self.pending.deep_view(),
            phase: self.phase,
            announced: self.announced,
            failure: self.failure,
        }
    }
}

impl Runner {
    /// Every runner is in a consistent state.
    #[verifier::type_invariant]
    spec fn inv(self) -> bool {
        consistent(self@)
    }

    /// A run of the script `moves`, which passes if the program under test
    /// announces its outcome with one of `keywords`. The players alternate,
    /// and player one makes the first move.
    pub fn new(moves: Vec<usize>, keywords: Vec<String>) -> (r: Runner)
        ensures
            r@ == initial(moves@, keywords.deep_view()),
            consistent(r@),
    {
        let board = Board::new();
        let pending: Vec<String> = Vec::new();
        proof {
            assert(moves@.take(0) =~= Seq::<usize>::empty());
            assert(pending.deep_view() =~= Seq::<Seq<char>>::empty());
        }
        Runner {
            moves,
            keywords,
            board,
            sent: 0,
            pending,
            phase: Phase::Init,
            announced: false,
            failure: None,
        }
    }

    /// Where the run stands.
    pub fn phase(&self) -> (p: Phase)
        ensures
            p == self@.phase,
    {
        self.phase
    }

    /// The reference board, as the moves written so far have left it.
    pub fn board(&self) -> (b: &Board)
        ensures
            b@ == self@.grid,
            well_shaped(b@),
            settled(b@),
            play(self@.moves.take(self@.sent as int)) == Some(b@),
    {
        proof {
            use_type_invariant(self);
            crate::board::lemma_play_respecting_capacity(self@.moves.take(self@.sent as int));
        }
        &self.board
    }

    /// What the harness has to do next. The text of a `WriteLine` is the
    /// decimal numeral of the column of the next move.
    pub fn action(&self) -> (a: Action)
        ensures
            action_fits(a, self@),
    {
        proof {
            use_type_invariant(self);
        }
        match self.phase {
            Phase::Init => Action::Spawn,
            Phase::AwaitingOutput => Action::ReadLine,
            Phase::AwaitingInput => Action::WriteLine(decimal_text(self.moves[self.sent])),
            Phase::Done => Action::Stop(self.verdict()),
        }
    }

    /// How the run would end if it ended now.
    fn verdict(&self) -> (o: Outcome)
        ensures
            self@.phase == Phase::Done ==> outcome_of(self@) == Some(o),
    {
        match self.failure {
            Some(e) => Outcome::Failed(e),
            None => if self.announced {
                Outcome::Passed
            } else {
                Outcome::NotDetected
            },
        }
    }

    /// How the run ended, or `None` while it goes on.
    pub fn outcome(&self) -> (o: Option<Outcome>)
        ensures
            o == outcome_of(self@),
    {
        match self.phase {
            Phase::Done => Some(self.verdict()),
            _ => None,
        }
    }

    /// The score of the run: 1 where it has passed, else 0.
    pub fn score(&self) -> (n: usize)
        ensures
            n == score_of(self@),
            n <= 1,
    {
        match self.outcome() {
            Some(Outcome::Passed) => 1,
            _ => 0,
        }
    }

    /// Takes the run one step on: `event` is what came of the action that
    /// was due. Returned are the state that follows and the action that is
    /// due in it.
    pub fn step(self, event: Event) -> (next: (Runner, Action))
        ensures
            next.0@ == step_spec(self@, event),
            consistent(next.0@),
            action_fits(next.1, next.0@),
    {
        proof {
            use_type_invariant(&self);
        }
        let ghost before = self@;
        let Runner { moves, keywords, board, sent, pending, phase, announced, failure } = self;
        let mut board = board;
        let mut sent = sent;
        let mut pending = pending;
        let mut phase = phase;
        let mut announced = announced;
        let mut failure = failure;
        match phase {
            Phase::Init => match event {
                Event::Spawned => {
                    phase = Phase::AwaitingOutput;
                },
                Event::SpawnFailed => {
                    phase = Phase::Done;
                    failure = Some(ScenarioError::ProcessSpawnFailure);
                },
                _ => {
                    phase = Phase::Done;
                    failure = Some(ScenarioError::ProtocolDesync(Desync::OutOfTurn));
                },
            },
            Phase::AwaitingOutput => match event {
                Event::Line(line) => {
                    pending.push(line);
                    assert(pending.deep_view() =~= before.pending.push(line@));
                    if pending.len() == LINES_PER_BATCH {
                        if sent < moves.len() {
                            if crate::oracle::matches(&pending, &board) {
                                if announces(&pending, &keywords) {
                                    announced = true;
                                }
                                phase = Phase::AwaitingInput;
                            } else {
                                phase = Phase::Done;
                                failure = Some(
                                    ScenarioError::ProtocolDesync(Desync::BoardMismatch),
                                );
                            }
                        } else {
                            if announces(&pending, &keywords) {
                                announced = true;
                            }
                            phase = Phase::Done;
                        }
                        pending = Vec::new();
                    }
                },
                Event::EndOfStream => {
                    phase = Phase::Done;
                    failure = Some(ScenarioError::ProtocolDesync(Desync::StreamEnded));
                    pending = Vec::new();
                },
                Event::TimedOut => {
                    phase = Phase::Done;
                    failure = Some(ScenarioError::ProtocolDesync(Desync::TimedOut));
                    pending = Vec::new();
                },
                _ => {
                    phase = Phase::Done;
                    failure = Some(ScenarioError::ProtocolDesync(Desync::OutOfTurn));
                    pending = Vec::new();
                },
            },
            Phase::AwaitingInput => match event {
                Event::Written => {
                    let player = if sent % 2 == 0 {
                        Player::One
                    } else {
                        Player::Two
                    };
                    assert(sent < moves.len());
                    match board.drop_piece(moves[sent], player) {
                        Ok(_) => {
                            proof {
                                assert(moves@.take(sent + 1).drop_last() =~= moves@.take(
                                    sent as int,
                                ));
                            }
                            sent = sent + 1;
                            phase = Phase::AwaitingOutput;
                        },
                        Err(_) => {
                            phase = Phase::Done;
                            failure = Some(ScenarioError::MalformedScript);
                        },
                    }
                },
                Event::TimedOut => {
                    phase = Phase::Done;
                    failure = Some(ScenarioError::ProtocolDesync(Desync::TimedOut));
                },
                _ => {
                    phase = Phase::Done;
                    failure = Some(ScenarioError::ProtocolDesync(Desync::OutOfTurn));
                },
            },
            Phase::Done => {},
        }
        proof {
            let want = step_spec(before, event);
            assert(want.pending == pending.deep_view());
        }
        let next = Runner { moves, keywords, board, sent, pending, phase, announced, failure };
        let action = next.action();
        (next, action)
    }
}

} // verus!
