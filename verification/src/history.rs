//! What holds of timers whose lives overlap.
//!
//! A history is any interleaving of the steps of any number of timers, some of which may still be
//! running at its end.
use crate::journal::Event;
use crate::laws::counter_total;
use crate::laws::law_totals_add_up;
use crate::laws::lemma_names_differ;
use crate::laws::lemma_short_log;
use crate::laws::samples;
use crate::stage_timer::finish_events;
use crate::stage_timer::output_events;
use crate::stage_timer::stage_metric;
use crate::stage_timer::start_events;
use crate::stage_timer::StageTimer;
use crate::stage_timer::CALLS_TOTAL;
use crate::stage_timer::DURATION_SECONDS;
use crate::stage_timer::OUTPUTS_TOTAL;
use std::time::Duration;
use std::time::Instant;
use vstd::multiset::Multiset;
use vstd::prelude::*;

verus! {

/// One step of a history.
pub enum Step {
    /// A timer was started.
    Started { timer: StageTimer },
    /// A timer was told of values that its stage produced.
    Produced { timer: StageTimer, outputs: usize },
    /// A timer was finished, and found to have run for `elapsed`.
    Finished { timer: StageTimer, elapsed: Duration },
    /// The observability flag was looked at or written, by a scope or before a start.
    Flag { request: Event },
}

impl StageTimer {
    /// Whether the timer is a timed one of `stage`.
    pub open spec fn counts_for(self, stage: Seq<char>) -> bool {
        self.started() is Some && self.stage() == stage
    }
}

impl Step {
    /// What the step adds to the journal.
    pub open spec fn events(self) -> Seq<Event> {
        match self {
            Step::Started { timer } => start_events(timer.stage(), timer.started()),
            Step::Produced { timer, outputs } => output_events(
                timer.stage(),
                timer.started(),
                outputs,
            ),
            Step::Finished { timer, elapsed } => finish_events(
                timer.stage(),
                timer.started(),
                elapsed,
            ),
            Step::Flag { request } => seq![request],
        }
    }

    /// Whether the step can be taken while the timers `running` are running.
    pub open spec fn possible(self, running: Multiset<StageTimer>) -> bool {
        match self {
            Step::Started { .. } => true,
            Step::Produced { timer, .. } => running.count(timer) > 0,
            Step::Finished { timer, .. } => running.count(timer) > 0,
            Step::Flag { request } => request is FlagSwapped || request is FlagStored
                || request is FlagLoaded,
        }
    }
}

/// What a history adds to the journal.
pub open spec fn history_events(history: Seq<Step>) -> Seq<Event>
    decreases history.len(),
{
    if history.len() == 0 {
        seq![]
    } else {
        history_events(history.drop_last()) + history.last().events()
    }
}

/// The timers that have been started in a history and not finished.
pub open spec fn running(history: Seq<Step>) -> Multiset<StageTimer>
    decreases history.len(),
{
    if history.len() == 0 {
        Multiset::empty()
    } else {
        match history.last() {
            Step::Started { timer } => running(history.drop_last()).insert(timer),
            Step::Finished { timer, .. } => running(history.drop_last()).remove(timer),
            _ => running(history.drop_last()),
        }
    }
}

/// Each step of a history is about a timer that is running.
pub open spec fn possible(history: Seq<Step>) -> bool
    decreases history.len(),
{
    history.len() > 0 ==> possible(history.drop_last()) && history.last().possible(
        running(history.drop_last()),
    )
}

/// The timed invocations of `stage` that are running at the end of a history.
pub open spec fn running_of(history: Seq<Step>, stage: Seq<char>) -> Multiset<StageTimer> {
    running(history).filter(|timer: StageTimer| timer.counts_for(stage))
}

/// The number of timed invocations of `stage` that a history starts.
pub open spec fn started_of(history: Seq<Step>, stage: Seq<char>) -> nat
    decreases history.len(),
{
    if history.len() == 0 {
        0
    } else {
        started_of(history.drop_last(), stage) + match history.last() {
            Step::Started { timer } if timer.counts_for(stage) => 1nat,
            _ => 0nat,
        }
    }
}

/// The number of values that the timed invocations of `stage` produce in a history.
pub open spec fn produced_of(history: Seq<Step>, stage: Seq<char>) -> nat
    decreases history.len(),
{
    if history.len() == 0 {
        0
    } else {
        produced_of(history.drop_last(), stage) + match history.last() {
            Step::Produced { timer, outputs } if timer.counts_for(stage) => outputs as nat,
            _ => 0nat,
        }
    }
}

/// How long each timed invocation of `stage` that a history finishes took, in the order in which
/// they finish.
pub open spec fn durations_of(history: Seq<Step>, stage: Seq<char>) -> Seq<Duration>
    decreases history.len(),
{
    if history.len() == 0 {
        seq![]
    } else {
        durations_of(history.drop_last(), stage) + match history.last() {
            Step::Finished { timer, elapsed } if timer.counts_for(stage) => seq![elapsed],
            _ => seq![],
        }
    }
}

/// However the lives of timers overlap, the metrics of a stage show the timed invocations that were
/// started, the values that they produced, and the time that each finished one took.
pub proof fn law_history_reports(history: Seq<Step>, stage: Seq<char>)
    requires
        possible(history),
    ensures
        counter_total(history_events(history), stage_metric(CALLS_TOTAL@, stage)) == started_of(
            history,
            stage,
        ),
        counter_total(history_events(history), stage_metric(OUTPUTS_TOTAL@, stage)) == produced_of(
            history,
            stage,
        ),
        samples(history_events(history), stage_metric(DURATION_SECONDS@, stage)) == durations_of(
            history,
            stage,
        ),
    decreases history.len(),
{
    let called = stage_metric(CALLS_TOTAL@, stage);
    let produced = stage_metric(OUTPUTS_TOTAL@, stage);
    let took = stage_metric(DURATION_SECONDS@, stage);
    if history.len() > 0 {
        let before = history_events(history.drop_last());
        let added = history.last().events();
        lemma_names_differ();
        law_history_reports(history.drop_last(), stage);
        law_totals_add_up(before, added, called);
        law_totals_add_up(before, added, produced);
        law_totals_add_up(before, added, took);
        lemma_short_log(added, called);
        lemma_short_log(added, produced);
        lemma_short_log(added, took);
        assert(samples(history_events(history), took) =~= durations_of(history, stage));
    }
}

/// However the lives of timers overlap, the calls that a stage shows are the durations that it shows
/// and one for each of its timed invocations that is still running.
pub proof fn law_calls_without_duration_are_running(history: Seq<Step>, stage: Seq<char>)
    requires
        possible(history),
    ensures
        counter_total(history_events(history), stage_metric(CALLS_TOTAL@, stage)) == samples(
            history_events(history),
            stage_metric(DURATION_SECONDS@, stage),
        ).len() + running_of(history, stage).len(),
{
    law_history_reports(history, stage);
    lemma_started_and_finished(history, stage);
}

/// Once every timer is finished, a stage shows as many durations as calls.
pub proof fn law_finished_history_is_balanced(history: Seq<Step>, stage: Seq<char>)
    requires
        possible(history),
        running(history) == Multiset::<StageTimer>::empty(),
    ensures
        counter_total(history_events(history), stage_metric(CALLS_TOTAL@, stage)) == samples(
            history_events(history),
            stage_metric(DURATION_SECONDS@, stage),
        ).len(),
{
    broadcast use vstd::multiset::group_multiset_axioms;

    law_calls_without_duration_are_running(history, stage);
    assert(running_of(history, stage) =~= Multiset::empty());
}

proof fn lemma_started_and_finished(history: Seq<Step>, stage: Seq<char>)
    requires
        possible(history),
    ensures
        started_of(history, stage) == durations_of(history, stage).len() + running_of(
            history,
            stage,
        ).len(),
    decreases history.len(),
{
    broadcast use vstd::multiset::group_multiset_axioms;

    if history.len() == 0 {
        assert(running_of(history, stage) =~= Multiset::empty());
    } else {
        let before = running_of(history.drop_last(), stage);
        lemma_started_and_finished(history.drop_last(), stage);
        match history.last() {
            Step::Started { timer } => {
                if timer.counts_for(stage) {
                    assert(running_of(history, stage) =~= before.insert(timer));
                } else {
                    assert(running_of(history, stage) =~= before);
                }
            },
            Step::Finished { timer, .. } => {
                if timer.counts_for(stage) {
                    assert(running_of(history, stage) =~= before.remove(timer));
                    assert(Multiset::singleton(timer).subset_of(before));
                } else {
                    assert(running_of(history, stage) =~= before);
                }
            },
            _ => {},
        }
    }
}

/// What a clock says when it shows `now`, where `at` places the instants it gives out on its scale,
/// and `length` measures the durations: its readings are `now`, and the time since an instant is the
/// distance to it, or zero for an instant that is still to come.
pub open spec fn clock_says(
    event: Event,
    now: int,
    at: spec_fn(Instant) -> int,
    length: spec_fn(Duration) -> int,
) -> bool {
    match event {
        Event::ClockRead { now: reading } => at(reading) == now,
        Event::ClockElapsed { since, elapsed } => length(elapsed) == if at(since) <= now {
            now - at(since)
        } else {
            0
        },
        _ => true,
    }
}

/// The clock that `log` speaks of never goes back. `time` is what it shows at each entry.
pub open spec fn steady_clock(
    log: Seq<Event>,
    time: spec_fn(int) -> int,
    at: spec_fn(Instant) -> int,
    length: spec_fn(Duration) -> int,
) -> bool {
    &&& forall|i: int, j: int| 0 <= i <= j < log.len() ==> #[trigger] time(i) <= #[trigger] time(j)
    &&& forall|i: int| 0 <= i < log.len() ==> clock_says(#[trigger] log[i], time(i), at, length)
}

/// Of two timed invocations, the one that starts first and finishes last reports a duration that is
/// at least as long as the other's, as long as the clock never goes back.
pub proof fn law_enclosing_invocation_takes_longer(
    before: Seq<Event>,
    outer_stage: Seq<char>,
    outer: Instant,
    outer_elapsed: Duration,
    until_inner: Seq<Event>,
    inner_stage: Seq<char>,
    inner: Instant,
    inner_elapsed: Duration,
    inside: Seq<Event>,
    until_outer: Seq<Event>,
    time: spec_fn(int) -> int,
    at: spec_fn(Instant) -> int,
    length: spec_fn(Duration) -> int,
)
    requires
        steady_clock(
            before + start_events(outer_stage, Some(outer)) + until_inner + start_events(
                inner_stage,
                Some(inner),
            ) + inside + finish_events(inner_stage, Some(inner), inner_elapsed) + until_outer
                + finish_events(outer_stage, Some(outer), outer_elapsed),
            time,
            at,
            length,
        ),
    ensures
        samples(
            finish_events(outer_stage, Some(outer), outer_elapsed),
            stage_metric(DURATION_SECONDS@, outer_stage),
        ) == seq![outer_elapsed],
        samples(
            finish_events(inner_stage, Some(inner), inner_elapsed),
            stage_metric(DURATION_SECONDS@, inner_stage),
        ) == seq![inner_elapsed],
        length(outer_elapsed) >= length(inner_elapsed),
{
    let outer_end = finish_events(outer_stage, Some(outer), outer_elapsed);
    let inner_end = finish_events(inner_stage, Some(inner), inner_elapsed);
    let outer_runs = before + start_events(outer_stage, Some(outer)) + until_inner;
    let both_run = outer_runs + start_events(inner_stage, Some(inner)) + inside;
    let log = both_run + inner_end + until_outer + outer_end;
    let outer_at = before.len() as int;
    let inner_at = outer_runs.len() as int;
    let inner_asked = both_run.len() as int + 1;
    let outer_asked = log.len() - 2;
    assert(log[outer_at] == Event::ClockRead { now: outer });
    assert(log[inner_at] == Event::ClockRead { now: inner });
    assert(log[inner_asked] == Event::ClockElapsed { since: inner, elapsed: inner_elapsed });
    assert(log[outer_asked] == Event::ClockElapsed { since: outer, elapsed: outer_elapsed });
    assert(time(outer_at) <= time(inner_at) <= time(inner_asked) <= time(outer_asked));
    lemma_short_log(outer_end, stage_metric(DURATION_SECONDS@, outer_stage));
    lemma_short_log(inner_end, stage_metric(DURATION_SECONDS@, inner_stage));
    assert(samples(outer_end, stage_metric(DURATION_SECONDS@, outer_stage))
        =~= seq![outer_elapsed]);
    assert(samples(inner_end, stage_metric(DURATION_SECONDS@, inner_stage))
        =~= seq![inner_elapsed]);
}

} // verus!
