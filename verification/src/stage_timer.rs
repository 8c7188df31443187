//! The timer of one pipeline stage invocation.
use crate::journal::increment_counter;
use crate::journal::load_flag;
use crate::journal::read_clock;
use crate::journal::read_elapsed;
use crate::journal::Event;
use crate::journal::Journal;
use crate::journal::Metric;
use crate::journal::RegisteredHistogram;
use std::sync::atomic::AtomicBool;
use std::time::Duration;
use std::time::Instant;
use vstd::prelude::*;

verus! {

/// The module that the stage metrics are reported for.
pub const TARGET: &'static str = "agentsight::runtime_metrics";

/// The label that tells the stages of one metric apart.
pub const STAGE_LABEL: &'static str = "stage";

/// The counter of a stage's invocations.
pub const CALLS_TOTAL: &'static str = "agentsight_stage_calls_total";

/// The counter of the values that a stage has produced.
pub const OUTPUTS_TOTAL: &'static str = "agentsight_stage_outputs_total";

/// The histogram of how long a stage's invocations took.
pub const DURATION_SECONDS: &'static str = "agentsight_stage_duration_seconds";

/// The metric `name` of `stage`.
pub open spec fn stage_metric(name: Seq<char>, stage: Seq<char>) -> Metric {
    Metric { target: TARGET@, name, label: STAGE_LABEL@, value: stage }
}

/// What counting an invocation adds to the journal: one call, if the invocation is timed.
pub open spec fn call_events(stage: Seq<char>, started: Option<Instant>) -> Seq<Event> {
    match started {
        Some(_) => seq![
            Event::CounterIncremented { metric: stage_metric(CALLS_TOTAL@, stage), amount: 1 },
        ],
        None => seq![],
    }
}

/// What starting a timer adds to the journal: a reading of the clock and one call, if it is timed.
pub open spec fn start_events(stage: Seq<char>, started: Option<Instant>) -> Seq<Event> {
    match started {
        Some(now) => seq![Event::ClockRead { now }] + call_events(stage, started),
        None => seq![],
    }
}

/// What a timer that has produced `outputs` values adds to the journal, if it is timed.
pub open spec fn output_events(
    stage: Seq<char>,
    started: Option<Instant>,
    outputs: usize,
) -> Seq<Event> {
    match started {
        Some(_) => seq![
            Event::CounterIncremented {
                metric: stage_metric(OUTPUTS_TOTAL@, stage),
                amount: outputs as u64,
            },
        ],
        None => seq![],
    }
}

/// What stopping a timer adds to the journal: the request for its stage's histogram, if it is timed.
pub open spec fn stop_events(stage: Seq<char>, started: Option<Instant>) -> Seq<Event> {
    match started {
        Some(_) => seq![
            Event::HistogramRegistered { metric: stage_metric(DURATION_SECONDS@, stage) },
        ],
        None => seq![],
    }
}

/// What ending a timer adds to the journal, if it is timed: the request for its stage's histogram,
/// then the question how long it ran, answered with `elapsed`, and that answer as one sample.
pub open spec fn finish_events(
    stage: Seq<char>,
    started: Option<Instant>,
    elapsed: Duration,
) -> Seq<Event> {
    match started {
        Some(since) => stop_events(stage, started) + seq![
            Event::ClockElapsed { since, elapsed },
            Event::HistogramRecorded {
                metric: stage_metric(DURATION_SECONDS@, stage),
                sample: elapsed,
            },
        ],
        None => seq![],
    }
}

/// A timed invocation that has ended and whose duration is still to be reported.
#[must_use]
pub struct StoppedTimer {
    histogram: RegisteredHistogram,
    since: Instant,
}

impl StoppedTimer {
    /// The metric that the duration is reported to.
    pub closed spec fn metric(self) -> Metric {
        self.histogram.metric()
    }

    /// The point in time that the invocation began at.
    pub closed spec fn since(self) -> Instant {
        self.since
    }

    /// Reports that the invocation took `elapsed`.
    pub fn report(self, journal: &mut Journal, elapsed: Duration)
        ensures
            final(journal).namespace() == old(journal).namespace(),
            final(journal)@ == old(journal)@.push(
                (Event::HistogramRecorded { metric: self.metric(), sample: elapsed }),
            ),
        opens_invariants [ old(journal).namespace() ]
    {
        self.histogram.record(journal, elapsed);
    }
}

/// Records invocation count, output count, and elapsed time for one pipeline stage.
///
/// A timer that was started while instrumentation was off has no starting point, and reports
/// nothing. The elapsed time is reported by a call of [`StageTimer::drop`]; a timer that merely goes
/// out of scope does not report it.
#[must_use]
pub struct StageTimer {
    stage: &'static str,
    started: Option<Instant>,
}

impl StageTimer {
    /// The stage that the timer reports for.
    pub closed spec fn stage(self) -> Seq<char> {
        self.stage@
    }

    /// The point in time that the timer measures from, if it is timed.
    pub closed spec fn started(self) -> Option<Instant> {
        self.started
    }

    /// Starts one timed invocation of a named pipeline stage, if `flag` is raised.
    pub fn start(flag: &AtomicBool, journal: &mut Journal, stage: &'static str) -> (timer: Self)
        ensures
            timer.stage() == stage@,
            final(journal).namespace() == old(journal).namespace(),
            final(journal)@ == old(journal)@.push(
                (Event::FlagLoaded { flag: *flag, value: timer.started() is Some }),
            ) + start_events(stage@, timer.started()),
            timer.started() matches Some(now) ==> final(journal)@ == old(journal)@ + seq![
                Event::FlagLoaded { flag: *flag, value: true },
                Event::ClockRead { now },
                Event::CounterIncremented {
                    metric: Metric {
                        target: "agentsight::runtime_metrics"@,
                        name: "agentsight_stage_calls_total"@,
                        label: "stage"@,
                        value: stage@,
                    },
                    amount: 1,
                },
            ],
            timer.started() is None ==> final(journal)@ == old(journal)@.push(
                (Event::FlagLoaded { flag: *flag, value: false }),
            ),
        opens_invariants [ old(journal).namespace() ]
    {
        let enabled: bool = load_flag(journal, flag);
        Self::start_if(journal, stage, enabled)
    }

    /// Starts one invocation of a named pipeline stage, timed if `enabled`.
    pub fn start_if(journal: &mut Journal, stage: &'static str, enabled: bool) -> (timer: Self)
        ensures
            timer.stage() == stage@,
            timer.started() is Some <==> enabled,
            final(journal).namespace() == old(journal).namespace(),
            final(journal)@ == old(journal)@ + start_events(stage@, timer.started()),
            timer.started() matches Some(now) ==> final(journal)@ == old(journal)@ + seq![
                Event::ClockRead { now },
                Event::CounterIncremented {
                    metric: Metric {
                        target: "agentsight::runtime_metrics"@,
                        name: "agentsight_stage_calls_total"@,
                        label: "stage"@,
                        value: stage@,
                    },
                    amount: 1,
                },
            ],
            !enabled ==> final(journal)@ == old(journal)@,
        opens_invariants [ old(journal).namespace() ]
    {
        let started: Option<Instant> = if enabled {
            Some(read_clock(journal))
        } else {
            None
        };
        let timer = Self::started_at(journal, stage, started);
        assert(journal@ =~= old(journal)@ + start_events(stage@, started));
        timer
    }

    /// Counts one invocation that began at `started`, or none if there is no such point in time.
    pub fn started_at(
        journal: &mut Journal,
        stage: &'static str,
        started: Option<Instant>,
    ) -> (timer: Self)
        ensures
            timer.stage() == stage@,
            timer.started() == started,
            final(journal).namespace() == old(journal).namespace(),
            final(journal)@ == old(journal)@ + call_events(stage@, started),
            started is Some ==> final(journal)@ == old(journal)@.push(
                (Event::CounterIncremented {
                    metric: (Metric {
                        target: "agentsight::runtime_metrics"@,
                        name: "agentsight_stage_calls_total"@,
                        label: "stage"@,
                        value: stage@,
                    }),
                    amount: 1,
                }),
            ),
            started is None ==> final(journal)@ == old(journal)@,
        opens_invariants [ old(journal).namespace() ]
    {
        match started {
            Some(_) => increment_counter(journal, TARGET, CALLS_TOTAL, STAGE_LABEL, stage, 1),
            None => {},
        }
        assert(journal@ =~= old(journal)@ + call_events(stage@, started));
        StageTimer { stage, started }
    }

    /// Records the number of values produced by this invocation.
    pub fn record_outputs(&self, journal: &mut Journal, outputs: usize)
        ensures
            final(journal).namespace() == old(journal).namespace(),
            final(journal)@ == old(journal)@ + output_events(self.stage(), self.started(), outputs),
            self.started() is Some ==> final(journal)@ == old(journal)@.push(
                (Event::CounterIncremented {
                    metric: (Metric {
                        target: "agentsight::runtime_metrics"@,
                        name: "agentsight_stage_outputs_total"@,
                        label: "stage"@,
                        value: self.stage(),
                    }),
                    amount: outputs as u64,
                }),
            ),
            self.started() is None ==> final(journal)@ == old(journal)@,
        opens_invariants [ old(journal).namespace() ]
    {
        match self.started {
            Some(_) => increment_counter(
                journal,
                TARGET,
                OUTPUTS_TOTAL,
                STAGE_LABEL,
                self.stage,
                outputs as u64,
            ),
            None => {},
        }
        assert(journal@ =~= old(journal)@ + output_events(
            self.stage(),
            self.started(),
            outputs,
        ));
    }

    /// Ends the invocation and records how long it took.
    ///
    /// The time that the recorder takes to give the histogram counts as part of the invocation.
    pub fn drop(self, journal: &mut Journal)
        ensures
            final(journal).namespace() == old(journal).namespace(),
            exists|elapsed: Duration|
                final(journal)@ == old(journal)@ + #[trigger] finish_events(
                    self.stage(),
                    self.started(),
                    elapsed,
                ),
            self.started() matches Some(since) ==> {
                let metric = Metric {
                    target: "agentsight::runtime_metrics"@,
                    name: "agentsight_stage_duration_seconds"@,
                    label: "stage"@,
                    value: self.stage(),
                };
                let asked = old(journal)@.len() as int;
                &&& final(journal)@.len() == asked + 3
                &&& final(journal)@.take(asked) == old(journal)@
                &&& final(journal)@[asked] == (Event::HistogramRegistered { metric })
                &&& final(journal)@[asked + 1] matches Event::ClockElapsed { since: from, elapsed }
                &&& from == since
                &&& final(journal)@[asked + 2] == (Event::HistogramRecorded {
                    metric,
                    sample: elapsed,
                })
            },
            self.started() is None ==> final(journal)@ == old(journal)@,
        opens_invariants [ old(journal).namespace() ]
    {
        let ghost (stage, started) = (self.stage(), self.started());
        match self.stop(journal) {
            Some(stopped) => {
                let elapsed = read_elapsed(journal, stopped.since);
                stopped.report(journal, elapsed);
                assert(journal@ =~= old(journal)@ + finish_events(stage, started, elapsed));
            },
            None => {
                proof {
                    let elapsed: Duration = arbitrary();
                    assert(journal@ =~= old(journal)@ + finish_events(stage, started, elapsed));
                }
            },
        }
    }

    /// Ends the invocation. If it is timed, its duration is still to be reported.
    pub fn stop(self, journal: &mut Journal) -> (stopped: Option<StoppedTimer>)
        ensures
            final(journal).namespace() == old(journal).namespace(),
            final(journal)@ == old(journal)@ + stop_events(self.stage(), self.started()),
            match stopped {
                Some(stopped) => self.started() == Some(stopped.since()) && stopped.metric()
                    == stage_metric(DURATION_SECONDS@, self.stage()),
                None => self.started() is None,
            },
            stopped matches Some(stopped) ==> stopped.metric() == (Metric {
                target: "agentsight::runtime_metrics"@,
                name: "agentsight_stage_duration_seconds"@,
                label: "stage"@,
                value: self.stage(),
            }) && final(journal)@ == old(journal)@.push(
                (Event::HistogramRegistered { metric: stopped.metric() }),
            ),
            stopped is None ==> final(journal)@ == old(journal)@,
        opens_invariants [ old(journal).namespace() ]
    {
        let stopped = match self.started {
            Some(since) => {
                let histogram = RegisteredHistogram::register(
                    journal,
                    TARGET,
                    DURATION_SECONDS,
                    STAGE_LABEL,
                    self.stage,
                );
                Some(StoppedTimer { histogram, since })
            },
            None => None,
        };
        assert(journal@ =~= old(journal)@ + stop_events(self.stage(), self.started()));
        stopped
    }
}

} // verus!
