//! What holds across calls.
//!
//! The first half is about metrics: what a recorder that adds up the requests it gets would show
//! after a run of the pipeline. The second half is about the flag: what it holds at each point of
//! a journal, as long as nothing that the journal does not know of writes it.
use crate::journal::Event;
use crate::journal::Metric;
use crate::observability::scope_entered;
use crate::observability::scope_left;
use crate::stage_timer::finish_events;
use crate::stage_timer::output_events;
use crate::stage_timer::stage_metric;
use crate::stage_timer::start_events;
use crate::stage_timer::CALLS_TOTAL;
use crate::stage_timer::DURATION_SECONDS;
use crate::stage_timer::OUTPUTS_TOTAL;
use std::sync::atomic::AtomicBool;
use std::time::Duration;
use std::time::Instant;
use vstd::prelude::*;

verus! {

/// What one request adds to the counter `metric`.
pub open spec fn amount_of(event: Event, metric: Metric) -> nat {
    match event {
        Event::CounterIncremented { metric: m, amount } if m == metric => amount as nat,
        _ => 0,
    }
}

/// The samples that one request adds to the histogram `metric`.
pub open spec fn samples_of(event: Event, metric: Metric) -> Seq<Duration> {
    match event {
        Event::HistogramRecorded { metric: m, sample } if m == metric => seq![sample],
        _ => seq![],
    }
}

/// The sum of all that `log` adds to the counter `metric`.
pub open spec fn counter_total(log: Seq<Event>, metric: Metric) -> nat
    decreases log.len(),
{
    if log.len() == 0 {
        0
    } else {
        counter_total(log.drop_last(), metric) + amount_of(log.last(), metric)
    }
}

/// The samples that `log` adds to the histogram `metric`, oldest first.
pub open spec fn samples(log: Seq<Event>, metric: Metric) -> Seq<Duration>
    decreases log.len(),
{
    if log.len() == 0 {
        seq![]
    } else {
        samples(log.drop_last(), metric) + samples_of(log.last(), metric)
    }
}

/// One life of a [`crate::StageTimer`]: started for `stage`, timed if `started` is a point in time,
/// told of `outputs` one after the other, and found to have taken `elapsed` at its end.
pub struct Invocation {
    pub stage: Seq<char>,
    pub started: Option<Instant>,
    pub outputs: Seq<usize>,
    pub elapsed: Duration,
}

impl Invocation {
    /// What being told of all outputs adds to the journal.
    pub open spec fn all_output_events(self) -> Seq<Event>
        decreases self.outputs.len(),
    {
        if self.outputs.len() == 0 {
            seq![]
        } else {
            (Invocation { outputs: self.outputs.drop_last(), ..self }).all_output_events()
                + output_events(self.stage, self.started, self.outputs.last())
        }
    }

    /// What the invocation adds to the journal from start to end.
    pub open spec fn events(self) -> Seq<Event> {
        start_events(self.stage, self.started) + self.all_output_events() + finish_events(
            self.stage,
            self.started,
            self.elapsed,
        )
    }

    /// Whether the invocation is a timed one of `stage`.
    pub open spec fn counts_for(self, stage: Seq<char>) -> bool {
        self.started is Some && self.stage == stage
    }

    /// The number of values that the invocation produced.
    pub open spec fn produced(self) -> nat
        decreases self.outputs.len(),
    {
        if self.outputs.len() == 0 {
            0
        } else {
            (Invocation { outputs: self.outputs.drop_last(), ..self }).produced()
                + self.outputs.last() as nat
        }
    }
}

/// What a run of invocations, one after the other, adds to the journal.
pub open spec fn run_events(run: Seq<Invocation>) -> Seq<Event>
    decreases run.len(),
{
    if run.len() == 0 {
        seq![]
    } else {
        run_events(run.drop_last()) + run.last().events()
    }
}

/// The number of timed invocations of `stage` in a run.
pub open spec fn calls(run: Seq<Invocation>, stage: Seq<char>) -> nat
    decreases run.len(),
{
    if run.len() == 0 {
        0
    } else {
        calls(run.drop_last(), stage) + if run.last().counts_for(stage) {
            1nat
        } else {
            0nat
        }
    }
}

/// The number of values that the timed invocations of `stage` in a run produced.
pub open spec fn outputs(run: Seq<Invocation>, stage: Seq<char>) -> nat
    decreases run.len(),
{
    if run.len() == 0 {
        0
    } else {
        outputs(run.drop_last(), stage) + if run.last().counts_for(stage) {
            run.last().produced()
        } else {
            0
        }
    }
}

/// How long each timed invocation of `stage` in a run took, oldest first.
pub open spec fn durations(run: Seq<Invocation>, stage: Seq<char>) -> Seq<Duration>
    decreases run.len(),
{
    if run.len() == 0 {
        seq![]
    } else if run.last().counts_for(stage) {
        durations(run.drop_last(), stage).push(run.last().elapsed)
    } else {
        durations(run.drop_last(), stage)
    }
}

/// Totals add up: what two stretches of a journal report is what each of them reports.
pub proof fn law_totals_add_up(first: Seq<Event>, second: Seq<Event>, metric: Metric)
    ensures
        counter_total(first + second, metric) == counter_total(first, metric) + counter_total(
            second,
            metric,
        ),
        samples(first + second, metric) == samples(first, metric) + samples(second, metric),
    decreases second.len(),
{
    if second.len() == 0 {
        assert(first + second =~= first);
        assert(samples(first, metric) + samples(second, metric) =~= samples(first, metric));
    } else {
        law_totals_add_up(first, second.drop_last(), metric);
        assert((first + second).drop_last() =~= first + second.drop_last());
        assert(samples(first + second, metric) =~= samples(first, metric) + samples(
            second,
            metric,
        ));
    }
}

/// The three metrics of the stages have different names.
pub(crate) proof fn lemma_names_differ()
    ensures
        CALLS_TOTAL@ != OUTPUTS_TOTAL@,
        CALLS_TOTAL@ != DURATION_SECONDS@,
        OUTPUTS_TOTAL@ != DURATION_SECONDS@,
{
    reveal_strlit("agentsight_stage_calls_total");
    reveal_strlit("agentsight_stage_outputs_total");
    reveal_strlit("agentsight_stage_duration_seconds");
    assert(CALLS_TOTAL@.len() == 28);
    assert(OUTPUTS_TOTAL@.len() == 30);
    assert(DURATION_SECONDS@.len() == 33);
}

/// What a journal of at most three entries reports.
pub(crate) proof fn lemma_short_log(log: Seq<Event>, metric: Metric)
    requires
        log.len() <= 3,
    ensures
        counter_total(log, metric) == (if log.len() > 0 {
            amount_of(log[0], metric)
        } else {
            0
        }) + (if log.len() > 1 {
            amount_of(log[1], metric)
        } else {
            0
        }) + (if log.len() > 2 {
            amount_of(log[2], metric)
        } else {
            0
        }),
        samples(log, metric) == (if log.len() > 0 {
            samples_of(log[0], metric)
        } else {
            seq![]
        }) + (if log.len() > 1 {
            samples_of(log[1], metric)
        } else {
            seq![]
        }) + (if log.len() > 2 {
            samples_of(log[2], metric)
        } else {
            seq![]
        }),
{
    reveal_with_fuel(counter_total, 4);
    reveal_with_fuel(samples, 4);
    if log.len() > 0 {
        assert(log.drop_last().len() == log.len() - 1);
        if log.len() > 1 {
            assert(log.drop_last().drop_last().len() == log.len() - 2);
        }
    }
    assert(samples(log, metric) =~= (if log.len() > 0 {
        samples_of(log[0], metric)
    } else {
        seq![]
    }) + (if log.len() > 1 {
        samples_of(log[1], metric)
    } else {
        seq![]
    }) + (if log.len() > 2 {
        samples_of(log[2], metric)
    } else {
        seq![]
    }));
}

/// Counters do not care for order: invocations that overlap count as they do one after the other.
pub proof fn law_counters_ignore_order(left: Seq<Event>, right: Seq<Event>, metric: Metric)
    requires
        left.to_multiset() == right.to_multiset(),
    ensures
        counter_total(left, metric) == counter_total(right, metric),
    decreases left.len(),
{
    broadcast use vstd::seq_lib::group_to_multiset_ensures;

    assert(left.to_multiset().len() == left.len());
    assert(right.to_multiset().len() == right.len());
    if left.len() > 0 {
        let last = left.last();
        assert(left.contains(last));
        assert(right.to_multiset().count(last) > 0);
        let at = choose|i: int| 0 <= i < right.len() && right[i] == last;
        let (head, tail) = (right.take(at), right.skip(at + 1));
        assert(right =~= head + seq![last] + tail);
        law_totals_add_up(head, seq![last], metric);
        law_totals_add_up(head + seq![last], tail, metric);
        law_totals_add_up(head, tail, metric);
        lemma_short_log(seq![last], metric);
        assert(right.remove(at) =~= head + tail);
        assert(left.remove(left.len() - 1) =~= left.drop_last());
        law_counters_ignore_order(left.drop_last(), head + tail, metric);
    }
}

/// What the outputs of an invocation report.
proof fn lemma_all_outputs(invocation: Invocation, metric: Metric)
    ensures
        counter_total(invocation.all_output_events(), metric) == if invocation.started is Some
            && metric == stage_metric(OUTPUTS_TOTAL@, invocation.stage) {
            invocation.produced()
        } else {
            0
        },
        samples(invocation.all_output_events(), metric) == Seq::<Duration>::empty(),
    decreases invocation.outputs.len(),
{
    if invocation.outputs.len() > 0 {
        let shorter = Invocation { outputs: invocation.outputs.drop_last(), ..invocation };
        lemma_all_outputs(shorter, metric);
        let told = output_events(invocation.stage, invocation.started, invocation.outputs.last());
        lemma_short_log(told, metric);
        law_totals_add_up(shorter.all_output_events(), told, metric);
        assert(samples(invocation.all_output_events(), metric) =~= Seq::<Duration>::empty());
    }
}

/// A timed invocation reports exactly one call, the sum of its outputs, and one duration, each for
/// its own stage, and nothing else. An invocation that is not timed reports nothing.
pub proof fn law_invocation_reports(invocation: Invocation, metric: Metric)
    ensures
        counter_total(invocation.events(), metric) == if invocation.started is None {
            0
        } else if metric == stage_metric(CALLS_TOTAL@, invocation.stage) {
            1
        } else if metric == stage_metric(OUTPUTS_TOTAL@, invocation.stage) {
            invocation.produced()
        } else {
            0
        },
        samples(invocation.events(), metric) == if invocation.started is Some && metric
            == stage_metric(DURATION_SECONDS@, invocation.stage) {
            seq![invocation.elapsed]
        } else {
            seq![]
        },
{
    let start = start_events(invocation.stage, invocation.started);
    let told = invocation.all_output_events();
    let finish = finish_events(invocation.stage, invocation.started, invocation.elapsed);
    lemma_names_differ();
    lemma_short_log(start, metric);
    lemma_all_outputs(invocation, metric);
    lemma_short_log(finish, metric);
    law_totals_add_up(start, told, metric);
    law_totals_add_up(start + told, finish, metric);
    assert(samples(invocation.events(), metric) =~= if invocation.started is Some && metric
        == stage_metric(DURATION_SECONDS@, invocation.stage) {
        seq![invocation.elapsed]
    } else {
        seq![]
    });
}

/// The metric that a request is about, if it is about one.
pub open spec fn metric_of(event: Event) -> Option<Metric> {
    match event {
        Event::CounterIncremented { metric, .. } => Some(metric),
        Event::HistogramRegistered { metric } => Some(metric),
        Event::HistogramRecorded { metric, .. } => Some(metric),
        _ => None,
    }
}

/// `metric` is one of the three metrics of `stage`.
pub open spec fn belongs_to(metric: Metric, stage: Seq<char>) -> bool {
    ||| metric == stage_metric(CALLS_TOTAL@, stage)
    ||| metric == stage_metric(OUTPUTS_TOTAL@, stage)
    ||| metric == stage_metric(DURATION_SECONDS@, stage)
}

/// `metric` is reported for the module of the stage metrics, and its one label says `stage`.
pub open spec fn labelled(metric: Metric, stage: Seq<char>) -> bool {
    &&& metric.target == "agentsight::runtime_metrics"@
    &&& metric.label == "stage"@
    &&& metric.value == stage
}

/// A request that is about a metric is about one of `stage`: a counter of its calls or of its
/// outputs, or the histogram of its durations.
pub open spec fn carries(event: Event, stage: Seq<char>) -> bool {
    match event {
        Event::CounterIncremented { metric, .. } => labelled(metric, stage) && (metric.name
            == "agentsight_stage_calls_total"@ || metric.name == "agentsight_stage_outputs_total"@),
        Event::HistogramRegistered { metric } => labelled(metric, stage) && metric.name
            == "agentsight_stage_duration_seconds"@,
        Event::HistogramRecorded { metric, .. } => labelled(metric, stage) && metric.name
            == "agentsight_stage_duration_seconds"@,
        _ => true,
    }
}

/// The metric of a name and a stage has that name, and the stage as the value of its one label,
/// which is `stage`. The three names are those that dashboards know.
pub proof fn law_metric_says_name_and_stage(name: Seq<char>, stage: Seq<char>)
    ensures
        stage_metric(name, stage).name == name,
        stage_metric(name, stage).value == stage,
        stage_metric(name, stage).label == "stage"@,
        stage_metric(name, stage).target == "agentsight::runtime_metrics"@,
        CALLS_TOTAL@ == "agentsight_stage_calls_total"@,
        OUTPUTS_TOTAL@ == "agentsight_stage_outputs_total"@,
        DURATION_SECONDS@ == "agentsight_stage_duration_seconds"@,
{
}

/// Starting a timer raises one counter by one, if the timer is timed: that of the calls of its own
/// stage. Every other counter and every histogram stays.
pub proof fn law_start_counts_one_call(
    log: Seq<Event>,
    stage: Seq<char>,
    started: Option<Instant>,
    metric: Metric,
)
    ensures
        counter_total(log + start_events(stage, started), metric) == counter_total(log, metric)
            + if started is Some && labelled(metric, stage) && metric.name
            == "agentsight_stage_calls_total"@ {
            1nat
        } else {
            0nat
        },
        samples(log + start_events(stage, started), metric) == samples(log, metric),
{
    let added = start_events(stage, started);
    law_totals_add_up(log, added, metric);
    lemma_short_log(added, metric);
    assert(samples(log + added, metric) =~= samples(log, metric));
}

/// Telling a timed timer of outputs raises one counter by exactly their number: that of the outputs
/// of its own stage. Every other counter and every histogram stays, and so does everything if the
/// timer is not timed.
pub proof fn law_outputs_raise_their_counter(
    log: Seq<Event>,
    stage: Seq<char>,
    started: Option<Instant>,
    outputs: usize,
    metric: Metric,
)
    ensures
        counter_total(log + output_events(stage, started, outputs), metric) == counter_total(
            log,
            metric,
        ) + if started is Some && labelled(metric, stage) && metric.name
            == "agentsight_stage_outputs_total"@ {
            outputs as nat
        } else {
            0
        },
        samples(log + output_events(stage, started, outputs), metric) == samples(log, metric),
{
    let added = output_events(stage, started, outputs);
    law_totals_add_up(log, added, metric);
    lemma_short_log(added, metric);
    assert(samples(log + added, metric) =~= samples(log, metric));
}

/// Telling a timer of outputs in two goes is telling it of their sum.
pub proof fn law_outputs_in_two_goes(
    log: Seq<Event>,
    stage: Seq<char>,
    started: Option<Instant>,
    first: usize,
    second: usize,
    metric: Metric,
)
    requires
        first + second <= usize::MAX,
    ensures
        counter_total(
            log + output_events(stage, started, first) + output_events(stage, started, second),
            metric,
        ) == counter_total(
            log + output_events(stage, started, (first + second) as usize),
            metric,
        ),
{
    law_outputs_raise_their_counter(log, stage, started, first, metric);
    law_outputs_raise_their_counter(
        log + output_events(stage, started, first),
        stage,
        started,
        second,
        metric,
    );
    law_outputs_raise_their_counter(log, stage, started, (first + second) as usize, metric);
}

/// Ending a timed timer gives one histogram one sample, the time it took: that of the durations of
/// its own stage. Every other histogram and every counter stays, and so does everything if the timer
/// is not timed.
pub proof fn law_end_adds_one_sample(
    log: Seq<Event>,
    stage: Seq<char>,
    started: Option<Instant>,
    elapsed: Duration,
    metric: Metric,
)
    ensures
        counter_total(log + finish_events(stage, started, elapsed), metric) == counter_total(
            log,
            metric,
        ),
        samples(log + finish_events(stage, started, elapsed), metric) == samples(log, metric)
            + if started is Some && labelled(metric, stage) && metric.name
            == "agentsight_stage_duration_seconds"@ {
            seq![elapsed]
        } else {
            seq![]
        },
{
    let added = finish_events(stage, started, elapsed);
    law_totals_add_up(log, added, metric);
    lemma_short_log(added, metric);
    assert(samples(log + added, metric) =~= samples(log, metric) + if started is Some && labelled(
        metric,
        stage,
    ) && metric.name == "agentsight_stage_duration_seconds"@ {
        seq![elapsed]
    } else {
        seq![]
    });
}

/// Ending a timed timer asks for the histogram of the durations of its own stage, then for the time
/// since the timer was started, and then hands on that time, in this order and once each.
pub proof fn law_end_asks_in_order(stage: Seq<char>, since: Instant, elapsed: Duration)
    ensures
        finish_events(stage, Some(since), elapsed).len() == 3,
        finish_events(stage, Some(since), elapsed)[0] matches Event::HistogramRegistered { metric }
            && labelled(metric, stage) && metric.name == "agentsight_stage_duration_seconds"@,
        finish_events(stage, Some(since), elapsed)[1] == (Event::ClockElapsed { since, elapsed }),
        finish_events(stage, Some(since), elapsed)[2] matches Event::HistogramRecorded {
            metric,
            sample,
        } && sample == elapsed && labelled(metric, stage) && metric.name
            == "agentsight_stage_duration_seconds"@,
{
}

/// A timer that finds the flag lowered adds that finding to the journal and nothing else: no metric
/// is asked for, and no clock. One that finds it raised asks the clock once, and counts one call.
pub proof fn law_start_obeys_the_flag(stage: Seq<char>, started: Option<Instant>)
    ensures
        started is None ==> start_events(stage, started).len() == 0,
        started matches Some(now) ==> start_events(stage, started).len() == 2 && start_events(
            stage,
            started,
        )[0] == (Event::ClockRead { now }) && (start_events(
            stage,
            started,
        )[1] matches Event::CounterIncremented { metric, amount } && amount == 1 && labelled(
            metric,
            stage,
        ) && metric.name == "agentsight_stage_calls_total"@),
{
}

/// Each request that an invocation makes of a recorder, from start to end, is about one of the three
/// metrics of its own stage.
pub proof fn law_requests_carry_the_stage(invocation: Invocation)
    ensures
        forall|i: int|
            0 <= i < invocation.events().len() ==> (#[trigger] metric_of(invocation.events()[i])
                matches Some(metric) ==> belongs_to(metric, invocation.stage)),
        forall|i: int|
            0 <= i < invocation.events().len() ==> #[trigger] carries(
                invocation.events()[i],
                invocation.stage,
            ),
{
    let start = start_events(invocation.stage, invocation.started);
    let told = invocation.all_output_events();
    lemma_outputs_carry_the_stage(invocation);
    assert forall|i: int| 0 <= i < invocation.events().len() implies #[trigger] carries(
        invocation.events()[i],
        invocation.stage,
    ) by {
        if start.len() <= i < start.len() + told.len() {
            assert(carries(told[i - start.len()], invocation.stage));
        }
    }
    assert forall|i: int| 0 <= i < invocation.events().len() implies (#[trigger] metric_of(
        invocation.events()[i],
    ) matches Some(metric) ==> belongs_to(metric, invocation.stage)) by {
        assert(carries(invocation.events()[i], invocation.stage));
    }
}

proof fn lemma_outputs_carry_the_stage(invocation: Invocation)
    ensures
        forall|i: int|
            0 <= i < invocation.all_output_events().len() ==> #[trigger] carries(
                invocation.all_output_events()[i],
                invocation.stage,
            ),
    decreases invocation.outputs.len(),
{
    if invocation.outputs.len() > 0 {
        let shorter = Invocation { outputs: invocation.outputs.drop_last(), ..invocation };
        let first = shorter.all_output_events();
        lemma_outputs_carry_the_stage(shorter);
        assert forall|i: int|
            0 <= i < invocation.all_output_events().len() implies #[trigger] carries(
            invocation.all_output_events()[i],
            invocation.stage,
        ) by {
            if i < first.len() {
                assert(carries(first[i], invocation.stage));
            }
        }
    }
}

/// A run of the pipeline raises the metrics of each stage by what its timed invocations amount to:
/// their number, the values they produced, and the time each of them took.
pub proof fn law_run_reports(log: Seq<Event>, run: Seq<Invocation>, stage: Seq<char>)
    ensures
        counter_total(log + run_events(run), stage_metric(CALLS_TOTAL@, stage)) == counter_total(
            log,
            stage_metric(CALLS_TOTAL@, stage),
        ) + calls(run, stage),
        counter_total(log + run_events(run), stage_metric(OUTPUTS_TOTAL@, stage)) == counter_total(
            log,
            stage_metric(OUTPUTS_TOTAL@, stage),
        ) + outputs(run, stage),
        samples(log + run_events(run), stage_metric(DURATION_SECONDS@, stage)) == samples(
            log,
            stage_metric(DURATION_SECONDS@, stage),
        ) + durations(run, stage),
    decreases run.len(),
{
    let called = stage_metric(CALLS_TOTAL@, stage);
    let produced = stage_metric(OUTPUTS_TOTAL@, stage);
    let took = stage_metric(DURATION_SECONDS@, stage);
    if run.len() == 0 {
        assert(log + run_events(run) =~= log);
        assert(samples(log, took) + durations(run, stage) =~= samples(log, took));
    } else {
        let rest = log + run_events(run.drop_last());
        let last = run.last();
        lemma_names_differ();
        law_run_reports(log, run.drop_last(), stage);
        assert(log + run_events(run) =~= rest + last.events());
        law_totals_add_up(rest, last.events(), called);
        law_totals_add_up(rest, last.events(), produced);
        law_totals_add_up(rest, last.events(), took);
        law_invocation_reports(last, called);
        law_invocation_reports(last, produced);
        law_invocation_reports(last, took);
        assert(samples(log + run_events(run), took) =~= samples(log, took) + durations(run, stage));
    }
}

/// An invocation that is not timed makes no request through the journal at hand: not to the
/// recorder, and not to the clock.
pub proof fn law_disabled_invocation_is_silent(invocation: Invocation)
    requires
        invocation.started is None,
    ensures
        invocation.events() == Seq::<Event>::empty(),
    decreases invocation.outputs.len(),
{
    if invocation.outputs.len() > 0 {
        let shorter = Invocation { outputs: invocation.outputs.drop_last(), ..invocation };
        law_disabled_invocation_is_silent(shorter);
        assert(shorter.all_output_events() =~= shorter.events());
    }
    assert(invocation.events() =~= Seq::<Event>::empty());
}

/// Neither a scope nor looking at its flag reports anything: the metrics are those of what ran
/// inside.
pub proof fn law_flag_requests_report_nothing(
    log: Seq<Event>,
    flag: AtomicBool,
    value: bool,
    metric: Metric,
)
    ensures
        counter_total(scope_entered(log, flag, value), metric) == counter_total(log, metric),
        counter_total(scope_left(log, flag, value), metric) == counter_total(log, metric),
        counter_total(log.push(Event::FlagLoaded { flag, value }), metric) == counter_total(
            log,
            metric,
        ),
        samples(scope_entered(log, flag, value), metric) == samples(log, metric),
        samples(scope_left(log, flag, value), metric) == samples(log, metric),
        samples(log.push(Event::FlagLoaded { flag, value }), metric) == samples(log, metric),
{
    assert(scope_entered(log, flag, value).drop_last() =~= log);
    assert(scope_left(log, flag, value).drop_last() =~= log);
    assert(log.push(Event::FlagLoaded { flag, value }).drop_last() =~= log);
    assert(samples(scope_entered(log, flag, value), metric) =~= samples(log, metric));
    assert(samples(scope_left(log, flag, value), metric) =~= samples(log, metric));
    assert(samples(log.push(Event::FlagLoaded { flag, value }), metric) =~= samples(log, metric));
}

/// The value that a request writes to `flag`, if it writes it.
pub open spec fn written(event: Event, flag: AtomicBool) -> Option<bool> {
    match event {
        Event::FlagSwapped { flag: f, to, .. } if f == flag => Some(to),
        Event::FlagStored { flag: f, to } if f == flag => Some(to),
        _ => None,
    }
}

/// The value that a request finds in `flag`, if it looks.
pub open spec fn observed(event: Event, flag: AtomicBool) -> Option<bool> {
    match event {
        Event::FlagSwapped { flag: f, prior, .. } if f == flag => Some(prior),
        Event::FlagLoaded { flag: f, value } if f == flag => Some(value),
        _ => None,
    }
}

/// What `flag` holds at the end of `log`, going by the writes in it: what was written last, or
/// `initial`.
pub open spec fn flag_value(flag: AtomicBool, initial: bool, log: Seq<Event>) -> bool
    decreases log.len(),
{
    if log.len() == 0 {
        initial
    } else {
        match written(log.last(), flag) {
            Some(to) => to,
            None => flag_value(flag, initial, log.drop_last()),
        }
    }
}

/// Nothing outside `log` writes `flag` meanwhile: each look at it finds what `log` says it holds.
pub open spec fn undisturbed(flag: AtomicBool, initial: bool, log: Seq<Event>) -> bool {
    forall|i: int|
        0 <= i < log.len() && (#[trigger] observed(log[i], flag)) is Some ==> observed(log[i], flag)
            == Some(flag_value(flag, initial, log.take(i)))
}

/// No request in `log` writes `flag`.
pub open spec fn unwritten(flag: AtomicBool, log: Seq<Event>) -> bool {
    forall|i: int| 0 <= i < log.len() ==> (#[trigger] written(log[i], flag)) is None
}

/// A stretch of a journal that does not write the flag leaves it as it is.
pub proof fn law_unwritten_flag_stays(
    flag: AtomicBool,
    initial: bool,
    log: Seq<Event>,
    more: Seq<Event>,
)
    requires
        unwritten(flag, more),
    ensures
        flag_value(flag, initial, log + more) == flag_value(flag, initial, log),
    decreases more.len(),
{
    if more.len() == 0 {
        assert(log + more =~= log);
    } else {
        assert(written(more[more.len() - 1], flag) is None);
        assert forall|i: int| 0 <= i < more.drop_last().len() implies (#[trigger] written(
            more.drop_last()[i],
            flag,
        )) is None by {
            assert(written(more[i], flag) is None);
        }
        law_unwritten_flag_stays(flag, initial, log, more.drop_last());
        assert((log + more).drop_last() =~= log + more.drop_last());
    }
}

/// Timers never write a flag.
pub proof fn law_run_leaves_flags(flag: AtomicBool, run: Seq<Invocation>)
    ensures
        unwritten(flag, run_events(run)),
    decreases run.len(),
{
    if run.len() > 0 {
        law_run_leaves_flags(flag, run.drop_last());
        lemma_invocation_leaves_flags(flag, run.last());
        let rest = run_events(run.drop_last());
        let last = run.last().events();
        assert forall|i: int| 0 <= i < run_events(run).len() implies (#[trigger] written(
            run_events(run)[i],
            flag,
        )) is None by {
            if i < rest.len() {
                assert(written(rest[i], flag) is None);
            } else {
                assert(written(last[i - rest.len()], flag) is None);
            }
        }
    }
}

proof fn lemma_invocation_leaves_flags(flag: AtomicBool, invocation: Invocation)
    ensures
        unwritten(flag, invocation.all_output_events()),
        unwritten(flag, invocation.events()),
    decreases invocation.outputs.len(),
{
    let start = start_events(invocation.stage, invocation.started);
    let told = invocation.all_output_events();
    if invocation.outputs.len() > 0 {
        let shorter = Invocation { outputs: invocation.outputs.drop_last(), ..invocation };
        lemma_invocation_leaves_flags(flag, shorter);
        let first = shorter.all_output_events();
        assert forall|i: int| 0 <= i < told.len() implies (#[trigger] written(
            told[i],
            flag,
        )) is None by {
            if i < first.len() {
                assert(written(first[i], flag) is None);
            }
        }
    }
    assert forall|i: int| 0 <= i < invocation.events().len() implies (#[trigger] written(
        invocation.events()[i],
        flag,
    )) is None by {
        if start.len() <= i < start.len() + told.len() {
            assert(written(told[i - start.len()], flag) is None);
        }
    }
}

/// A look at an undisturbed flag finds what the journal before it says.
proof fn lemma_observation(flag: AtomicBool, initial: bool, log: Seq<Event>, at: int)
    requires
        undisturbed(flag, initial, log),
        0 <= at < log.len(),
        observed(log[at], flag) is Some,
    ensures
        observed(log[at], flag) == Some(flag_value(flag, initial, log.take(at))),
{
}

/// Instrumentation is on where a scope's callback starts.
pub proof fn law_scope_raises_flag(
    flag: AtomicBool,
    initial: bool,
    before: Seq<Event>,
    prior: bool,
)
    ensures
        flag_value(flag, initial, scope_entered(before, flag, prior)),
{
}

/// When a scope ends, the flag holds again what it held before the scope, whatever the callback
/// did to the flag.
pub proof fn law_scope_restores_flag(
    flag: AtomicBool,
    initial: bool,
    before: Seq<Event>,
    prior: bool,
    inside: Seq<Event>,
)
    requires
        scope_entered(before, flag, prior).is_prefix_of(inside),
        undisturbed(flag, initial, scope_left(inside, flag, prior)),
    ensures
        flag_value(flag, initial, scope_left(inside, flag, prior)) == flag_value(
            flag,
            initial,
            before,
        ),
{
    let log = scope_left(inside, flag, prior);
    let at = before.len() as int;
    assert(log[at] == scope_entered(before, flag, prior)[at]);
    lemma_observation(flag, initial, log, at);
    assert(log.take(at) =~= before) by {
        assert forall|i: int| 0 <= i < at implies log[i] == before[i] by {
            assert(log[i] == scope_entered(before, flag, prior)[i]);
        }
    }
}

/// A timer is timed exactly if the flag is raised where the timer is started.
pub proof fn law_timer_follows_flag(
    flag: AtomicBool,
    initial: bool,
    log: Seq<Event>,
    stage: Seq<char>,
    started: Option<Instant>,
)
    requires
        undisturbed(
            flag,
            initial,
            log.push(Event::FlagLoaded { flag, value: started is Some }) + start_events(
                stage,
                started,
            ),
        ),
    ensures
        started is Some <==> flag_value(flag, initial, log),
{
    let all = log.push(Event::FlagLoaded { flag, value: started is Some }) + start_events(
        stage,
        started,
    );
    lemma_observation(flag, initial, all, log.len() as int);
    assert(all.take(log.len() as int) =~= log);
}

/// A timer that is started inside a scope is timed, as long as nothing in the scope has written the
/// flag before.
pub proof fn law_timer_in_scope_is_timed(
    flag: AtomicBool,
    initial: bool,
    before: Seq<Event>,
    prior: bool,
    more: Seq<Event>,
    stage: Seq<char>,
    started: Option<Instant>,
)
    requires
        unwritten(flag, more),
        undisturbed(
            flag,
            initial,
            (scope_entered(before, flag, prior) + more).push(
                Event::FlagLoaded { flag, value: started is Some },
            ) + start_events(stage, started),
        ),
    ensures
        started is Some,
{
    law_scope_raises_flag(flag, initial, before, prior);
    law_unwritten_flag_stays(flag, initial, scope_entered(before, flag, prior), more);
    law_timer_follows_flag(
        flag,
        initial,
        scope_entered(before, flag, prior) + more,
        stage,
        started,
    );
}

/// A scope leaves no trace for later timers: one that is started right after it is timed exactly if
/// the flag was raised before the scope, whatever the callback did to the flag.
pub proof fn law_timer_after_scope_follows_prior_state(
    flag: AtomicBool,
    initial: bool,
    before: Seq<Event>,
    prior: bool,
    inside: Seq<Event>,
    stage: Seq<char>,
    started: Option<Instant>,
)
    requires
        scope_entered(before, flag, prior).is_prefix_of(inside),
        undisturbed(
            flag,
            initial,
            scope_left(inside, flag, prior).push(
                Event::FlagLoaded { flag, value: started is Some },
            ) + start_events(stage, started),
        ),
    ensures
        started is Some <==> flag_value(flag, initial, before),
{
    let left = scope_left(inside, flag, prior);
    let all = left.push(Event::FlagLoaded { flag, value: started is Some }) + start_events(
        stage,
        started,
    );
    assert forall|i: int|
        0 <= i < left.len() && (#[trigger] observed(left[i], flag)) is Some implies observed(
        left[i],
        flag,
    ) == Some(flag_value(flag, initial, left.take(i))) by {
        assert(all[i] == left[i]);
        lemma_observation(flag, initial, all, i);
        assert(all.take(i) =~= left.take(i));
    }
    law_scope_restores_flag(flag, initial, before, prior, inside);
    law_timer_follows_flag(flag, initial, left, stage, started);
}

/// A scope makes two writes to its flag, and the second undoes the first: it writes what the first
/// found.
pub proof fn law_scope_writes_back_what_it_found(
    flag: AtomicBool,
    before: Seq<Event>,
    prior: bool,
    inside: Seq<Event>,
)
    ensures
        scope_entered(before, flag, prior).len() == before.len() + 1,
        scope_left(inside, flag, prior).len() == inside.len() + 1,
        before.is_prefix_of(scope_entered(before, flag, prior)),
        inside.is_prefix_of(scope_left(inside, flag, prior)),
        written(scope_entered(before, flag, prior).last(), flag) == Some(true),
        written(scope_left(inside, flag, prior).last(), flag) == observed(
            scope_entered(before, flag, prior).last(),
            flag,
        ),
{
}

/// A scope that ends inside another one leaves instrumentation on for the rest of the outer scope.
pub proof fn law_nested_scope_keeps_flag_raised(
    flag: AtomicBool,
    initial: bool,
    before: Seq<Event>,
    outer_prior: bool,
    more: Seq<Event>,
    inner_prior: bool,
    inside: Seq<Event>,
)
    requires
        unwritten(flag, more),
        scope_entered(
            scope_entered(before, flag, outer_prior) + more,
            flag,
            inner_prior,
        ).is_prefix_of(inside),
        undisturbed(flag, initial, scope_left(inside, flag, inner_prior)),
    ensures
        flag_value(flag, initial, scope_left(inside, flag, inner_prior)),
{
    let outer = scope_entered(before, flag, outer_prior);
    law_scope_raises_flag(flag, initial, before, outer_prior);
    law_unwritten_flag_stays(flag, initial, outer, more);
    law_scope_restores_flag(flag, initial, outer + more, inner_prior, inside);
}

} // verus!
