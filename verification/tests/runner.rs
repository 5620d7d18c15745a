use connect4_grader::board::{Board, Cell, COLUMNS, ROWS};
use connect4_grader::catalog::catalog;
use connect4_grader::grade::{grade, report, score};
use connect4_grader::runner::{
    Action, Desync, Event, Outcome, Phase, Runner, ScenarioError, LINES_PER_BATCH,
};

/// A stand-in for the program under test: it keeps its own grid and prints
/// what a Connect Four program prints.
struct Subject {
    cells: [[char; 7]; 6],
    moves_taken: usize,
}

impl Subject {
    fn new() -> Subject {
        Subject {
            cells: [['.'; 7]; 6],
            moves_taken: 0,
        }
    }

    fn take(&mut self, text: &str) {
        let column: usize = text.trim().parse().unwrap();
        let mark = if self.moves_taken % 2 == 0 { 'R' } else { 'Y' };
        for row in (0..6).rev() {
            if self.cells[row][column - 1] == '.' {
                self.cells[row][column - 1] = mark;
                self.moves_taken += 1;
                return;
            }
        }
        panic!("column {} is full", column);
    }

    fn rows(&self) -> Vec<String> {
        self.cells
            .iter()
            .map(|row| {
                let mut line = String::from("|");
                for cell in row {
                    line.push(' ');
                    line.push(*cell);
                    line.push(' ');
                    line.push('|');
                }
                line.push('\n');
                line
            })
            .collect()
    }

    fn batch(&self, seventh: &str) -> Vec<String> {
        let mut lines = self.rows();
        lines.push(format!("{}\n", seventh));
        lines
    }

    fn has_four(&self, mark: char) -> bool {
        let dirs: [(i32, i32); 4] = [(0, 1), (1, 0), (1, 1), (1, -1)];
        for r in 0..6i32 {
            for c in 0..7i32 {
                for (dr, dc) in dirs {
                    let mut all = true;
                    for k in 0..4 {
                        let (rr, cc) = (r + dr * k, c + dc * k);
                        if rr < 0 || rr >= 6 || cc < 0 || cc >= 7 {
                            all = false;
                        } else if self.cells[rr as usize][cc as usize] != mark {
                            all = false;
                        }
                    }
                    if all {
                        return true;
                    }
                }
            }
        }
        false
    }
}

fn board_has_four(board: &Board, cell: Cell) -> bool {
    let dirs: [(i32, i32); 4] = [(0, 1), (1, 0), (1, 1), (1, -1)];
    for r in 0..ROWS as i32 {
        for c in 0..COLUMNS as i32 {
            for (dr, dc) in dirs {
                let mut all = true;
                for k in 0..4 {
                    let (rr, cc) = (r + dr * k, c + dc * k);
                    if rr < 0 || rr >= ROWS as i32 || cc < 0 || cc >= COLUMNS as i32 {
                        all = false;
                    } else if board.cell(rr as usize, cc as usize) != cell {
                        all = false;
                    }
                }
                if all {
                    return true;
                }
            }
        }
    }
    false
}

fn words(list: &[&str]) -> Vec<String> {
    list.iter().map(|w| w.to_string()).collect()
}

/// Runs a scenario against a subject that plays by the rules. Behind the
/// last move the subject prints `closing`, as the last line of its batch or,
/// where `closing_first` is set, as the first.
fn run_against_subject(
    moves: &[usize],
    keywords: &[&str],
    closing: &str,
    closing_first: bool,
) -> (Runner, Subject, Vec<String>) {
    let mut runner = Runner::new(moves.to_vec(), words(keywords));
    let mut subject = Subject::new();
    let mut written: Vec<String> = Vec::new();
    let mut out: std::collections::VecDeque<String> = std::collections::VecDeque::new();
    let mut action = runner.action();
    let closing_batch = |subject: &Subject| -> Vec<String> {
        if closing_first {
            let mut lines = vec![format!("{}\n", closing)];
            lines.extend(subject.rows());
            lines
        } else {
            subject.batch(closing)
        }
    };
    loop {
        let event = match action {
            Action::Spawn => {
                if moves.is_empty() {
                    out.extend(closing_batch(&subject));
                } else {
                    out.extend(subject.batch("Enter a column (1-7): "));
                }
                Event::Spawned
            }
            Action::ReadLine => match out.pop_front() {
                Some(line) => Event::Line(line),
                None => Event::EndOfStream,
            },
            Action::WriteLine(text) => {
                subject.take(&text);
                written.push(text);
                if subject.moves_taken == moves.len() {
                    out.extend(closing_batch(&subject));
                } else {
                    out.extend(subject.batch("Enter a column (1-7): "));
                }
                Event::Written
            }
            Action::Stop(_) => break,
        };
        let (next, due) = runner.step(event);
        runner = next;
        action = due;
    }
    (runner, subject, written)
}

fn feed(mut runner: Runner, lines: &[String]) -> Runner {
    for line in lines {
        let (next, _) = runner.step(Event::Line(line.clone()));
        runner = next;
    }
    runner
}

fn started(moves: &[usize], keywords: &[&str]) -> Runner {
    let runner = Runner::new(moves.to_vec(), words(keywords));
    assert_eq!(runner.action(), Action::Spawn);
    let (runner, action) = runner.step(Event::Spawned);
    assert_eq!(action, Action::ReadLine);
    runner
}

const FIRST_WIN: [usize; 12] = [5, 4, 4, 3, 1, 2, 1, 4, 1, 4, 1, 4];

#[test]
fn new_runner_waits_for_the_spawn() {
    let runner = Runner::new(FIRST_WIN.to_vec(), words(&["win", "won"]));
    assert_eq!(runner.phase(), Phase::Init);
    assert_eq!(runner.action(), Action::Spawn);
    assert_eq!(runner.outcome(), None);
    assert_eq!(runner.score(), 0);
}

#[test]
fn spawn_failure_fails_the_scenario() {
    let runner = Runner::new(FIRST_WIN.to_vec(), words(&["win", "won"]));
    let (runner, action) = runner.step(Event::SpawnFailed);
    assert_eq!(
        action,
        Action::Stop(Outcome::Failed(ScenarioError::ProcessSpawnFailure))
    );
    assert_eq!(runner.phase(), Phase::Done);
    assert_eq!(
        runner.outcome(),
        Some(Outcome::Failed(ScenarioError::ProcessSpawnFailure))
    );
    assert_eq!(runner.score(), 0);
}

#[test]
fn end_to_end_first_win_of_player_one() {
    let (runner, subject, written) =
        run_against_subject(&FIRST_WIN, &["win", "won"], "Player 1 wins!", false);
    assert_eq!(runner.phase(), Phase::Done);
    assert_eq!(runner.outcome(), Some(Outcome::Passed));
    assert_eq!(runner.score(), 1);
    assert!(subject.has_four('R'));
    assert!(board_has_four(runner.board(), Cell::Player1));
    assert!(!board_has_four(runner.board(), Cell::Player2));
    assert_eq!(
        written,
        words(&["5", "4", "4", "3", "1", "2", "1", "4", "1", "4", "1", "4"])
    );
}

#[test]
fn keyword_in_first_line_of_final_batch_scores_one() {
    let (runner, _, _) = run_against_subject(&FIRST_WIN, &["win", "won"], "PLAYER 1 HAS WON", true);
    assert_eq!(runner.outcome(), Some(Outcome::Passed));
    assert_eq!(runner.score(), 1);
}

#[test]
fn keyword_in_last_line_of_final_batch_scores_one() {
    let (runner, _, _) =
        run_against_subject(&FIRST_WIN, &["win", "won"], "Winner: player 1", false);
    assert_eq!(runner.outcome(), Some(Outcome::Passed));
    assert_eq!(runner.score(), 1);
}

#[test]
fn no_keyword_scores_zero() {
    let (runner, _, written) =
        run_against_subject(&FIRST_WIN, &["win", "won"], "Game over.", false);
    assert_eq!(runner.phase(), Phase::Done);
    assert_eq!(runner.outcome(), Some(Outcome::NotDetected));
    assert_eq!(runner.score(), 0);
    assert_eq!(written.len(), 12);
}

#[test]
fn wrong_keyword_scores_zero() {
    let (runner, _, _) =
        run_against_subject(&FIRST_WIN, &["draw", "drew"], "Player 1 wins!", false);
    assert_eq!(runner.outcome(), Some(Outcome::NotDetected));
    assert_eq!(runner.score(), 0);
}

#[test]
fn keyword_in_a_middle_line_scores_zero() {
    let mut runner = started(&[], &["win"]);
    let batch = words(&["a", "b", "c", "win", "d", "e", "f"]);
    runner = feed(runner, &batch);
    assert_eq!(runner.outcome(), Some(Outcome::NotDetected));
    assert_eq!(runner.score(), 0);
}

#[test]
fn announcement_before_the_final_batch_is_kept() {
    let mut runner = started(&[3], &["win"]);
    let mut subject = Subject::new();
    runner = feed(runner, &subject.batch("You will WIN. Column: "));
    assert_eq!(runner.phase(), Phase::AwaitingInput);
    assert_eq!(runner.action(), Action::WriteLine("3".to_string()));
    let (next, action) = runner.step(Event::Written);
    runner = next;
    assert_eq!(action, Action::ReadLine);
    subject.take("3");
    runner = feed(runner, &subject.batch("Bye."));
    assert_eq!(runner.outcome(), Some(Outcome::Passed));
    assert_eq!(runner.score(), 1);
}

#[test]
fn stream_truncated_after_three_lines_fails() {
    let mut runner = started(&FIRST_WIN, &["win", "won"]);
    let subject = Subject::new();
    let batch = subject.batch("Enter a column (1-7): ");
    runner = feed(runner, &batch[..3]);
    assert_eq!(runner.phase(), Phase::AwaitingOutput);
    assert_eq!(runner.action(), Action::ReadLine);
    let (runner, action) = runner.step(Event::EndOfStream);
    assert_eq!(
        action,
        Action::Stop(Outcome::Failed(ScenarioError::ProtocolDesync(
            Desync::StreamEnded
        )))
    );
    assert_eq!(runner.phase(), Phase::Done);
    assert_eq!(
        runner.outcome(),
        Some(Outcome::Failed(ScenarioError::ProtocolDesync(
            Desync::StreamEnded
        )))
    );
    assert_eq!(runner.score(), 0);
}

#[test]
fn stream_truncated_at_any_point_of_a_batch_fails() {
    for kept in 0..LINES_PER_BATCH {
        let mut runner = started(&[], &["win"]);
        let lines = words(&["win", "win", "win", "win", "win", "win", "win"]);
        runner = feed(runner, &lines[..kept]);
        let (runner, action) = runner.step(Event::EndOfStream);
        assert_eq!(action, Action::Stop(runner.outcome().unwrap()));
        assert_eq!(
            runner.outcome(),
            Some(Outcome::Failed(ScenarioError::ProtocolDesync(
                Desync::StreamEnded
            )))
        );
        assert_eq!(runner.score(), 0);
    }
}

#[test]
fn truncation_after_an_announcement_still_scores_zero() {
    let mut runner = started(&[3], &["win"]);
    let subject = Subject::new();
    runner = feed(runner, &subject.batch("win"));
    let (runner, _) = runner.step(Event::Written);
    let (runner, action) = runner.step(Event::EndOfStream);
    assert_eq!(action, Action::Stop(runner.outcome().unwrap()));
    assert_eq!(runner.score(), 0);
}

#[test]
fn full_batch_is_read_before_each_write() {
    let mut runner = started(&[4, 4], &["win"]);
    let mut subject = Subject::new();
    for turn in 0..2 {
        let batch = subject.batch("Column: ");
        for (i, line) in batch.iter().enumerate() {
            assert_eq!(runner.phase(), Phase::AwaitingOutput);
            let (next, action) = runner.step(Event::Line(line.clone()));
            runner = next;
            if i + 1 < LINES_PER_BATCH {
                assert_eq!(action, Action::ReadLine);
            } else {
                assert_eq!(action, Action::WriteLine("4".to_string()));
            }
        }
        assert_eq!(runner.phase(), Phase::AwaitingInput);
        let (next, action) = runner.step(Event::Written);
        runner = next;
        subject.take("4");
        assert_eq!(action, Action::ReadLine);
        assert_eq!(runner.board().cell(5 - turn, 3) != Cell::Empty, true);
    }
    assert_eq!(runner.board().cell(5, 3), Cell::Player1);
    assert_eq!(runner.board().cell(4, 3), Cell::Player2);
}

#[test]
fn board_mismatch_fails_the_scenario() {
    let mut runner = started(&[4, 4], &["win"]);
    let mut subject = Subject::new();
    runner = feed(runner, &subject.batch("Column: "));
    let (next, _) = runner.step(Event::Written);
    runner = next;
    // The subject shows two pieces where the script has sent one move.
    subject.take("4");
    subject.take("4");
    let batch = subject.batch("You win");
    runner = feed(runner, &batch[..6]);
    assert_eq!(runner.phase(), Phase::AwaitingOutput);
    let (runner, action) = runner.step(Event::Line(batch[6].clone()));
    assert_eq!(action, Action::Stop(runner.outcome().unwrap()));
    assert_eq!(
        runner.outcome(),
        Some(Outcome::Failed(ScenarioError::ProtocolDesync(
            Desync::BoardMismatch
        )))
    );
    assert_eq!(runner.score(), 0);
}

#[test]
fn piece_in_another_column_of_the_same_row_goes_unnoticed() {
    let mut runner = started(&[4, 4], &["win"]);
    let mut subject = Subject::new();
    runner = feed(runner, &subject.batch("Column: "));
    let (next, _) = runner.step(Event::Written);
    runner = next;
    subject.take("5");
    runner = feed(runner, &subject.batch("Column: "));
    assert_eq!(runner.phase(), Phase::AwaitingInput);
    assert_eq!(runner.outcome(), None);
}

#[test]
fn final_batch_is_not_held_against_the_board() {
    let mut runner = started(&[4], &["win"]);
    let subject = Subject::new();
    runner = feed(runner, &subject.batch("Column: "));
    let (next, _) = runner.step(Event::Written);
    runner = next;
    // The subject shows an empty board although a move was sent.
    runner = feed(runner, &subject.batch("You win"));
    assert_eq!(runner.outcome(), Some(Outcome::Passed));
}

#[test]
fn out_of_turn_events_fail_the_scenario() {
    let cases: Vec<(Runner, Event)> = vec![
        (
            Runner::new(vec![1], words(&["win"])),
            Event::Line("win".to_string()),
        ),
        (Runner::new(vec![1], words(&["win"])), Event::Written),
        (Runner::new(vec![1], words(&["win"])), Event::EndOfStream),
        (started(&[1], &["win"]), Event::Written),
        (started(&[1], &["win"]), Event::Spawned),
        (started(&[1], &["win"]), Event::SpawnFailed),
        (
            feed(started(&[1], &["win"]), &Subject::new().batch("?")),
            Event::Line("win".to_string()),
        ),
        (
            feed(started(&[1], &["win"]), &Subject::new().batch("?")),
            Event::EndOfStream,
        ),
        (
            feed(started(&[1], &["win"]), &Subject::new().batch("?")),
            Event::Spawned,
        ),
    ];
    for (runner, event) in cases {
        let (runner, action) = runner.step(event);
        assert_eq!(action, Action::Stop(runner.outcome().unwrap()));
        assert_eq!(
            runner.outcome(),
            Some(Outcome::Failed(ScenarioError::ProtocolDesync(
                Desync::OutOfTurn
            )))
        );
        assert_eq!(runner.score(), 0);
    }
}

#[test]
fn finished_run_ignores_further_events() {
    let (runner, _, _) = run_against_subject(&FIRST_WIN, &["win", "won"], "Player 1 wins!", false);
    let (runner, action) = runner.step(Event::EndOfStream);
    assert_eq!(action, Action::Stop(runner.outcome().unwrap()));
    let (runner, action) = runner.step(Event::Line("x".to_string()));
    assert_eq!(action, Action::Stop(runner.outcome().unwrap()));
    let (runner, action) = runner.step(Event::Written);
    assert_eq!(action, Action::Stop(runner.outcome().unwrap()));
    assert_eq!(runner.outcome(), Some(Outcome::Passed));
    assert_eq!(runner.score(), 1);
}

#[test]
fn move_into_a_full_column_fails_the_scenario() {
    let moves = [2, 2, 2, 2, 2, 2, 2];
    let mut runner = started(&moves, &["win"]);
    let mut subject = Subject::new();
    for _ in 0..6 {
        runner = feed(runner, &subject.batch("Column: "));
        assert_eq!(runner.action(), Action::WriteLine("2".to_string()));
        let (next, action) = runner.step(Event::Written);
        runner = next;
        assert_eq!(action, Action::ReadLine);
        subject.take("2");
    }
    runner = feed(runner, &subject.batch("Column: "));
    assert_eq!(runner.action(), Action::WriteLine("2".to_string()));
    let (runner, action) = runner.step(Event::Written);
    assert_eq!(action, Action::Stop(runner.outcome().unwrap()));
    assert_eq!(
        runner.outcome(),
        Some(Outcome::Failed(ScenarioError::MalformedScript))
    );
    assert_eq!(runner.score(), 0);
    for row in 0..ROWS {
        assert!(runner.board().cell(row, 1) != Cell::Empty);
    }
}

#[test]
fn move_out_of_range_fails_the_scenario() {
    for column in [0usize, 8, 12] {
        let mut runner = started(&[column], &["win"]);
        runner = feed(runner, &Subject::new().batch("Column: "));
        assert_eq!(runner.action(), Action::WriteLine(column.to_string()));
        let (runner, action) = runner.step(Event::Written);
        assert_eq!(action, Action::Stop(runner.outcome().unwrap()));
        assert_eq!(
            runner.outcome(),
            Some(Outcome::Failed(ScenarioError::MalformedScript))
        );
    }
}

#[test]
fn catalog_has_five_scenarios() {
    let scenarios = catalog();
    assert_eq!(scenarios.len(), 5);
    assert_eq!(scenarios[0].moves, FIRST_WIN.to_vec());
    assert_eq!(scenarios[0].keywords, words(&["win", "won"]));
    assert_eq!(scenarios[1].moves.len(), 31);
    assert_eq!(scenarios[1].keywords, words(&["win", "won"]));
    assert_eq!(scenarios[2].moves.len(), 34);
    assert_eq!(scenarios[2].keywords, words(&["won", "win"]));
    assert_eq!(
        scenarios[3].moves,
        vec![4, 4, 3, 3, 6, 5, 7, 3, 5, 2, 6, 2, 1, 2, 7, 2]
    );
    assert_eq!(scenarios[3].keywords, words(&["won", "win"]));
    assert_eq!(scenarios[4].moves.len(), 42);
    assert_eq!(scenarios[4].keywords, words(&["draw", "drew"]));
}

#[test]
fn catalog_against_a_faithful_subject_gets_full_marks() {
    let closings = [
        "Player 1 wins!",
        "Player 1 WON",
        "Player 2 won.",
        "The winner is player 2",
        "It's a draw",
    ];
    let winners = [Some('R'), Some('R'), Some('Y'), Some('Y'), None];
    let mut outcomes = Vec::new();
    for (i, scenario) in catalog().into_iter().enumerate() {
        let keywords: Vec<&str> = scenario.keywords.iter().map(|k| k.as_str()).collect();
        let (runner, subject, written) =
            run_against_subject(&scenario.moves, &keywords, closings[i], i % 2 == 0);
        assert_eq!(written.len(), scenario.moves.len());
        assert_eq!(runner.outcome(), Some(Outcome::Passed));
        match winners[i] {
            Some(mark) => assert!(subject.has_four(mark)),
            None => {
                assert!(!subject.has_four('R'));
                assert!(!subject.has_four('Y'));
                assert_eq!(subject.moves_taken, 42);
            }
        }
        outcomes.push(runner.outcome().unwrap());
    }
    assert_eq!(grade(&outcomes), 10);
}

#[test]
fn scenario_builds_its_runner() {
    let scenario = catalog().remove(3);
    let runner = scenario.runner();
    assert_eq!(runner.phase(), Phase::Init);
    assert_eq!(runner.action(), Action::Spawn);
    let (runner, _) = runner.step(Event::Spawned);
    let runner = feed(runner, &Subject::new().batch("?"));
    assert_eq!(runner.action(), Action::WriteLine("4".to_string()));
}

#[test]
fn grade_is_twice_the_number_of_passes() {
    let failed = Outcome::Failed(ScenarioError::ProtocolDesync(Desync::StreamEnded));
    assert_eq!(grade(&vec![]), 0);
    assert_eq!(grade(&vec![Outcome::NotDetected; 5]), 0);
    assert_eq!(grade(&vec![Outcome::Passed]), 2);
    assert_eq!(
        grade(&vec![
            Outcome::Passed,
            Outcome::NotDetected,
            Outcome::Passed,
            failed,
            Outcome::Passed
        ]),
        6
    );
    assert_eq!(grade(&vec![Outcome::Passed; 5]), 10);
    assert_eq!(
        grade(&vec![
            failed,
            Outcome::Failed(ScenarioError::ProcessSpawnFailure),
            Outcome::Failed(ScenarioError::MalformedScript)
        ]),
        0
    );
}

#[test]
fn grades_of_five_scenarios_are_even_and_at_most_ten() {
    for mask in 0u32..32 {
        let outcomes: Vec<Outcome> = (0..5)
            .map(|i| {
                if mask & (1 << i) != 0 {
                    Outcome::Passed
                } else if i % 2 == 0 {
                    Outcome::NotDetected
                } else {
                    Outcome::Failed(ScenarioError::ProcessSpawnFailure)
                }
            })
            .collect();
        let g = grade(&outcomes);
        assert_eq!(g, 2 * mask.count_ones() as usize);
        assert!([0, 2, 4, 6, 8, 10].contains(&g));
    }
}

#[test]
fn score_is_one_only_for_a_pass() {
    assert_eq!(score(Outcome::Passed), 1);
    assert_eq!(score(Outcome::NotDetected), 0);
    assert_eq!(score(Outcome::Failed(ScenarioError::ProcessSpawnFailure)), 0);
    assert_eq!(
        score(Outcome::Failed(ScenarioError::ProtocolDesync(
            Desync::BoardMismatch
        ))),
        0
    );
}

#[test]
fn report_of_a_failed_compilation_gives_zero() {
    assert_eq!(
        report(false, &vec![]),
        words(&["Failed to compile", "score = 0"])
    );
    assert_eq!(
        report(false, &vec![Outcome::Passed; 5]),
        words(&["Failed to compile", "score = 0"])
    );
}

#[test]
fn report_of_a_session_is_the_grade() {
    assert_eq!(report(true, &vec![]), words(&["0"]));
    assert_eq!(report(true, &vec![Outcome::Passed; 5]), words(&["10"]));
    assert_eq!(
        report(
            true,
            &vec![
                Outcome::Passed,
                Outcome::NotDetected,
                Outcome::Failed(ScenarioError::ProcessSpawnFailure),
                Outcome::Passed,
                Outcome::Passed
            ]
        ),
        words(&["6"])
    );
}

#[test]
fn timeout_fails_the_scenario() {
    let timed_out = Outcome::Failed(ScenarioError::ProtocolDesync(Desync::TimedOut));

    let runner = started(&[3], &["win"]);
    let runner = feed(runner, &words(&["win", "b", "c"]));
    let (runner, action) = runner.step(Event::TimedOut);
    assert_eq!(action, Action::Stop(timed_out));
    assert_eq!(runner.outcome(), Some(timed_out));
    assert_eq!(runner.score(), 0);

    let runner = started(&[3], &["win"]);
    let runner = feed(runner, &Subject::new().batch("You win"));
    assert_eq!(runner.phase(), Phase::AwaitingInput);
    let (runner, action) = runner.step(Event::TimedOut);
    assert_eq!(action, Action::Stop(timed_out));
    assert_eq!(runner.score(), 0);

    let runner = Runner::new(vec![3], words(&["win"]));
    let (runner, _) = runner.step(Event::TimedOut);
    assert_eq!(
        runner.outcome(),
        Some(Outcome::Failed(ScenarioError::ProtocolDesync(
            Desync::OutOfTurn
        )))
    );
}
