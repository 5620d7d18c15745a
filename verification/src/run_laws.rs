//! What holds of every run, stated over the transition function of the
//! runner.

use vstd::prelude::*;
use crate::board::{lemma_play_respecting_capacity, play, settled, well_shaped};
use crate::matcher::{batch_announces, line_announces};
use crate::oracle::batch_agrees;
use crate::runner::{
    after_batch, consistent, failed, initial, outcome_of, run, score_of, step_spec, Desync, Event,
    Outcome, Phase, RunnerView, ScenarioError, LINES_PER_BATCH,
};

verus! {

/// The events that report `lines` as read, one after another.
pub open spec fn as_events(lines: Seq<String>) -> Seq<Event> {
    lines.map_values(|line: String| Event::Line(line))
}

/// The characters of each of `lines`.
pub open spec fn texts(lines: Seq<String>) -> Seq<Seq<char>> {
    lines.map_values(|line: String| line@)
}

/// No outcome has been announced in state `s`, and none of the lines that
/// wait in it for their batch to fill announces one.
pub open spec fn silent(s: RunnerView) -> bool {
    &&& !s.announced
    &&& forall|i: int|
        0 <= i < s.pending.len() ==> !line_announces(s.keywords, #[trigger] s.pending[i])
}

/// Event `e` brings no line that announces an outcome by `keywords`.
pub open spec fn brings_no_announcement(keywords: Seq<Seq<char>>, e: Event) -> bool {
    e matches Event::Line(line) ==> !line_announces(keywords, line@)
}

/// A run that has ended takes no further step.
pub proof fn lemma_done_is_final(s: RunnerView, events: Seq<Event>)
    requires
        s.phase == Phase::Done,
    ensures
        run(s, events) == s,
    decreases events.len(),
{
    if events.len() > 0 {
        lemma_done_is_final(s, events.drop_last());
    }
}

/// A run whose lines never hold a keyword scores 0: as long as no line
/// announces the outcome, none is taken as announced, however the run goes
/// on and however it ends.
pub proof fn lemma_silent_run_scores_zero(s: RunnerView, events: Seq<Event>)
    requires
        silent(s),
        forall|i: int|
            0 <= i < events.len() ==> brings_no_announcement(s.keywords, #[trigger] events[i]),
    ensures
        silent(run(s, events)),
        run(s, events).keywords == s.keywords,
        outcome_of(run(s, events)) != Some(Outcome::Passed),
        score_of(run(s, events)) == 0,
    decreases events.len(),
{
    if events.len() > 0 {
        let init = events.drop_last();
        assert forall|i: int| 0 <= i < init.len() implies brings_no_announcement(
            s.keywords,
            #[trigger] init[i],
        ) by {
            assert(init[i] == events[i]);
        }
        lemma_silent_run_scores_zero(s, init);
        let mid = run(s, init);
        let e = events.last();
        assert(brings_no_announcement(s.keywords, events[events.len() - 1]));
        if mid.phase == Phase::AwaitingOutput {
            if let Event::Line(line) = e {
                let batch = mid.pending.push(line@);
                assert forall|i: int| 0 <= i < batch.len() implies !line_announces(
                    s.keywords,
                    #[trigger] batch[i],
                ) by {
                    if i < mid.pending.len() {
                        assert(batch[i] == mid.pending[i]);
                    }
                }
                assert(!batch_announces(s.keywords, batch));
            }
        }
    }
}

/// Lines that do not fill the batch are kept for it, and nothing else
/// changes.
pub proof fn lemma_lines_are_collected(s: RunnerView, lines: Seq<String>)
    requires
        s.phase == Phase::AwaitingOutput,
        s.pending.len() + lines.len() < LINES_PER_BATCH,
    ensures
        run(s, as_events(lines)) == (RunnerView { pending: s.pending + texts(lines), ..s }),
    decreases lines.len(),
{
    if lines.len() == 0 {
        assert(s.pending + texts(lines) =~= s.pending);
    } else {
        let init = lines.drop_last();
        lemma_lines_are_collected(s, init);
        assert(as_events(lines).drop_last() =~= as_events(init));
        assert(as_events(lines).last() == Event::Line(lines.last()));
        assert((s.pending + texts(init)).push(lines.last()@) =~= s.pending + texts(lines));
    }
}

/// The line that fills the batch has the whole batch judged: the run goes
/// on as `after_batch` says of the lines in the order in which they came.
pub proof fn lemma_batch_is_judged(s: RunnerView, lines: Seq<String>)
    requires
        s.phase == Phase::AwaitingOutput,
        lines.len() > 0,
        s.pending.len() + lines.len() == LINES_PER_BATCH,
    ensures
        run(s, as_events(lines)) == after_batch(s, s.pending + texts(lines)),
{
    let init = lines.drop_last();
    lemma_lines_are_collected(s, init);
    assert(as_events(lines).drop_last() =~= as_events(init));
    assert(as_events(lines).last() == Event::Line(lines.last()));
    assert((s.pending + texts(init)).push(lines.last()@) =~= s.pending + texts(lines));
}

/// The batch behind the last move decides a run that has not failed: the
/// run passes exactly if the outcome was announced before, or the first or
/// the last line of that batch announces it. Either line is enough.
pub proof fn lemma_final_batch_decides(s: RunnerView, lines: Seq<String>)
    requires
        s.phase == Phase::AwaitingOutput,
        s.failure is None,
        s.sent >= s.moves.len(),
        s.pending.len() == 0,
        lines.len() == LINES_PER_BATCH,
    ensures
        run(s, as_events(lines)).phase == Phase::Done,
        outcome_of(run(s, as_events(lines))) == Some(
            if s.announced || line_announces(s.keywords, lines.first()@) || line_announces(
                s.keywords,
                lines.last()@,
            ) {
                Outcome::Passed
            } else {
                Outcome::NotDetected
            },
        ),
        line_announces(s.keywords, lines.first()@) ==> score_of(run(s, as_events(lines))) == 1,
        line_announces(s.keywords, lines.last()@) ==> score_of(run(s, as_events(lines))) == 1,
{
    lemma_batch_is_judged(s, lines);
    assert(s.pending + texts(lines) =~= texts(lines));
    assert(texts(lines).first() == lines.first()@);
    assert(texts(lines).last() == lines.last()@);
}

/// Output that ends before the batch is full fails the run, whatever was
/// read of the batch: nothing is made of a short batch, and the run scores
/// 0 even where the outcome had been announced before.
pub proof fn lemma_truncated_batch_fails(s: RunnerView, lines: Seq<String>)
    requires
        s.phase == Phase::AwaitingOutput,
        s.pending.len() + lines.len() < LINES_PER_BATCH,
    ensures
        run(s, as_events(lines).push(Event::EndOfStream)) == failed(
            s,
            ScenarioError::ProtocolDesync(Desync::StreamEnded),
        ),
        outcome_of(run(s, as_events(lines).push(Event::EndOfStream))) == Some(
            Outcome::Failed(ScenarioError::ProtocolDesync(Desync::StreamEnded)),
        ),
        score_of(run(s, as_events(lines).push(Event::EndOfStream))) == 0,
{
    let events = as_events(lines).push(Event::EndOfStream);
    lemma_lines_are_collected(s, lines);
    assert(events.drop_last() =~= as_events(lines));
}

/// A read or a write that does not end in time fails the run, which then
/// scores 0 even where the outcome had been announced before.
pub proof fn lemma_timeout_fails(s: RunnerView)
    requires
        s.phase == Phase::AwaitingOutput || s.phase == Phase::AwaitingInput,
    ensures
        outcome_of(step_spec(s, Event::TimedOut)) == Some(
            Outcome::Failed(ScenarioError::ProtocolDesync(Desync::TimedOut)),
        ),
        score_of(step_spec(s, Event::TimedOut)) == 0,
{
}

/// Events taken one group after another lead where the groups lead in
/// turn.
pub proof fn lemma_run_in_parts(s: RunnerView, first: Seq<Event>, second: Seq<Event>)
    ensures
        run(s, first + second) == run(run(s, first), second),
    decreases second.len(),
{
    if second.len() == 0 {
        assert(first + second =~= first);
    } else {
        lemma_run_in_parts(s, first, second.drop_last());
        assert((first + second).drop_last() =~= first + second.drop_last());
    }
}

/// A step keeps what holds of every state of a run, and never touches the
/// script or the keywords.
pub proof fn lemma_step_keeps_consistent(s: RunnerView, e: Event)
    requires
        consistent(s),
    ensures
        consistent(step_spec(s, e)),
        step_spec(s, e).moves == s.moves,
        step_spec(s, e).keywords == s.keywords,
{
    if s.phase == Phase::AwaitingInput && e == Event::Written {
        let sent = s.sent as int;
        assert(s.moves.take(sent + 1).drop_last() =~= s.moves.take(sent));
    }
}

/// Whatever the events, a run stays consistent from its first state on: the
/// reference grid is the one that the moves written so far give, and it is
/// settled.
pub proof fn lemma_run_is_consistent(
    moves: Seq<usize>,
    keywords: Seq<Seq<char>>,
    events: Seq<Event>,
)
    ensures
        consistent(run(initial(moves, keywords), events)),
        run(initial(moves, keywords), events).moves == moves,
        run(initial(moves, keywords), events).keywords == keywords,
        well_shaped(run(initial(moves, keywords), events).grid),
        settled(run(initial(moves, keywords), events).grid),
    decreases events.len(),
{
    let start = initial(moves, keywords);
    if events.len() == 0 {
        assert(moves.take(0) =~= Seq::<usize>::empty());
    } else {
        lemma_run_is_consistent(moves, keywords, events.drop_last());
        lemma_step_keeps_consistent(run(start, events.drop_last()), events.last());
    }
    let end = run(start, events);
    lemma_play_respecting_capacity(moves.take(end.sent as int));
}

/// What the harness reports in a conversation that goes through `turns`
/// turns without a fault: the start of the program, and for each turn the
/// lines of its batch and the writing of its move.
pub open spec fn conversation(batches: Seq<Seq<String>>, turns: nat) -> Seq<Event>
    decreases turns,
{
    if turns == 0 {
        seq![Event::Spawned]
    } else {
        conversation(batches, (turns - 1) as nat) + as_events(batches[turns - 1]).push(
            Event::Written,
        )
    }
}

/// One of the first `n` of `batches` announces the outcome.
pub open spec fn announced_within(
    keywords: Seq<Seq<char>>,
    batches: Seq<Seq<String>>,
    n: int,
) -> bool {
    exists|i: int| 0 <= i < n && batch_announces(keywords, #[trigger] texts(batches[i]))
}

/// A script that can be played leaves every shorter script playable.
pub proof fn lemma_play_of_prefix(moves: Seq<usize>, k: int)
    requires
        0 <= k <= moves.len(),
        play(moves) is Some,
    ensures
        play(moves.take(k)) is Some,
    decreases moves.len() - k,
{
    if k == moves.len() {
        assert(moves.take(k) =~= moves);
    } else {
        lemma_play_of_prefix(moves, k + 1);
        assert(moves.take(k + 1).drop_last() =~= moves.take(k));
    }
}

/// As long as the program under test shows the reference board, the run
/// goes on: after `turns` turns the next batch is awaited, the grid is the
/// one that the first `turns` moves give, and the outcome counts as announced
/// exactly if one of the batches read so far has announced it.
pub proof fn lemma_faithful_turns(
    moves: Seq<usize>,
    keywords: Seq<Seq<char>>,
    batches: Seq<Seq<String>>,
    turns: nat,
)
    requires
        play(moves) is Some,
        turns <= moves.len(),
        batches.len() >= turns,
        forall|i: int| 0 <= i < turns ==> (#[trigger] batches[i]).len() == LINES_PER_BATCH,
        forall|i: int|
            0 <= i < turns ==> batch_agrees(
                #[trigger] texts(batches[i]),
                play(moves.take(i))->0,
            ),
    ensures
        run(initial(moves, keywords), conversation(batches, turns)) == (RunnerView {
            phase: Phase::AwaitingOutput,
            sent: turns,
            grid: play(moves.take(turns as int))->0,
            announced: announced_within(keywords, batches, turns as int),
            ..initial(moves, keywords)
        }),
    decreases turns,
{
    let start = initial(moves, keywords);
    if turns == 0 {
        assert(run(start, conversation(batches, 0).drop_last()) == start);
    } else {
        let k = (turns - 1) as nat;
        lemma_faithful_turns(moves, keywords, batches, k);
        let mid = run(start, conversation(batches, k));
        let lines = batches[k as int];
        let tail = as_events(lines).push(Event::Written);
        lemma_run_in_parts(start, conversation(batches, k), tail);
        assert(tail.drop_last() =~= as_events(lines));
        lemma_batch_is_judged(mid, lines);
        let judged = after_batch(mid, texts(lines));
        lemma_play_of_prefix(moves, turns as int);
        assert(moves.take(turns as int).drop_last() =~= moves.take(k as int));
        assert(judged.announced == announced_within(keywords, batches, turns as int)) by {
            if announced_within(keywords, batches, k as int) {
                let i = choose|i: int|
                    0 <= i < k && batch_announces(keywords, #[trigger] texts(batches[i]));
                assert(0 <= i < turns);
            }
            if announced_within(keywords, batches, turns as int) {
                let i = choose|i: int|
                    0 <= i < turns && batch_announces(keywords, #[trigger] texts(batches[i]));
                assert(i < k || i == k);
            }
        }
    }
}

/// A script that can be played, held against a program that shows the
/// reference board before each move, runs to its end without a fault: every
/// move is written, the grid is the one that the whole script gives, and the
/// run passes exactly if one of the batches, the one behind the last move
/// included, announces the outcome in its first or last line.
pub proof fn lemma_faithful_run_completes(
    moves: Seq<usize>,
    keywords: Seq<Seq<char>>,
    batches: Seq<Seq<String>>,
)
    requires
        play(moves) is Some,
        batches.len() == moves.len() + 1,
        forall|i: int| 0 <= i < batches.len() ==> (#[trigger] batches[i]).len() == LINES_PER_BATCH,
        forall|i: int|
            0 <= i < moves.len() ==> batch_agrees(
                #[trigger] texts(batches[i]),
                play(moves.take(i))->0,
            ),
    ensures
        ({
            let end = run(
                initial(moves, keywords),
                conversation(batches, moves.len()) + as_events(batches.last()),
            );
            &&& end.phase == Phase::Done
            &&& end.failure is None
            &&& end.sent == moves.len()
            &&& Some(end.grid) == play(moves)
            &&& end.announced == announced_within(keywords, batches, batches.len() as int)
            &&& outcome_of(end) == Some(
                if announced_within(keywords, batches, batches.len() as int) {
                    Outcome::Passed
                } else {
                    Outcome::NotDetected
                },
            )
        }),
{
    let start = initial(moves, keywords);
    let n = moves.len();
    lemma_faithful_turns(moves, keywords, batches, n);
    let mid = run(start, conversation(batches, n));
    let lines = batches.last();
    lemma_run_in_parts(start, conversation(batches, n), as_events(lines));
    lemma_batch_is_judged(mid, lines);
    assert(mid.pending + texts(lines) =~= texts(lines));
    assert(moves.take(n as int) =~= moves);
    let end = after_batch(mid, texts(lines));
    assert(end.announced == announced_within(keywords, batches, batches.len() as int)) by {
        if announced_within(keywords, batches, n as int) {
            let i = choose|i: int|
                0 <= i < n && batch_announces(keywords, #[trigger] texts(batches[i]));
            assert(0 <= i < batches.len() && batch_announces(keywords, texts(batches[i])));
        }
        if batch_announces(keywords, texts(lines)) {
            assert(batch_announces(keywords, texts(batches[n as int])));
        }
        if announced_within(keywords, batches, batches.len() as int) {
            let i = choose|i: int|
                0 <= i < batches.len() && batch_announces(
                    keywords,
                    #[trigger] texts(batches[i]),
                );
            if i < n {
                assert(announced_within(keywords, batches, n as int));
            }
        }
    }
}

} // verus!
