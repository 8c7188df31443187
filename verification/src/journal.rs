//! The record of what the library asks of the world, and the calls that make those requests.
//!
//! Every function here that is marked `external_body` makes one request and appends it to the
//! journal it is given. Nothing outside this module can append to a journal, so a contract that
//! speaks of a journal's new entries speaks of requests that were made through that journal.
//!
//! That nothing else was asked is the part of the `opens_invariants` clauses. A request counts as
//! opening the namespace of its journal, so a function that may open no other namespace can make no
//! request through another journal, nor write an atomic directly. Writes to a flag, besides, take a
//! [`Flag`] to raise it and a [`Prior`] to restore it, each of which is used up.
use std::sync::atomic::AtomicBool;
use std::sync::atomic::Ordering;
use std::time::Duration;
use std::time::Instant;
use vstd::prelude::*;

verus! {

/// `std::time::Instant`, a point in time that only the clock can tell apart from another.
#[verifier::external_type_specification]
#[verifier::external_body]
pub struct ExInstant(Instant);

/// `metrics::Histogram`, a recorder's handle on a histogram.
#[verifier::external_type_specification]
#[verifier::external_body]
pub struct ExHistogram(metrics::Histogram);

/// A metric as a recorder is asked for it: a name, one label, and the module it is reported for.
pub struct Metric {
    pub target: Seq<char>,
    pub name: Seq<char>,
    pub label: Seq<char>,
    pub value: Seq<char>,
}

/// One request, with its answer where it has one.
pub enum Event {
    /// `to` was written to `flag`, which held `prior` at that moment.
    FlagSwapped { flag: AtomicBool, to: bool, prior: bool },
    /// `to` was written to `flag`.
    FlagStored { flag: AtomicBool, to: bool },
    /// `flag` was read, and held `value`.
    FlagLoaded { flag: AtomicBool, value: bool },
    /// The clock was read, and showed `now`.
    ClockRead { now: Instant },
    /// The clock was asked how long ago `since` was, and answered `elapsed`.
    ClockElapsed { since: Instant, elapsed: Duration },
    /// The current recorder was asked for the counter `metric`, and that counter to grow by
    /// `amount`.
    CounterIncremented { metric: Metric, amount: u64 },
    /// The current recorder was asked for the histogram `metric`.
    HistogramRegistered { metric: Metric },
    /// The histogram that a recorder gave for `metric` was asked to take `sample`, in seconds.
    HistogramRecorded { metric: Metric, sample: Duration },
}

/// The requests made so far through this value, oldest first. It occupies no memory.
///
/// Each journal has a namespace, and a request through a journal counts as opening that namespace.
/// A function whose `opens_invariants` clause names only the namespace of the journal it is given
/// can make requests through that journal alone: what it adds there is all that it asks.
pub struct Journal {
    log: Ghost<Seq<Event>>,
    namespace: Ghost<int>,
}

impl View for Journal {
    type V = Seq<Event>;

    closed spec fn view(&self) -> Seq<Event> {
        self.log@
    }
}

impl Journal {
    /// The namespace that a request through this journal opens.
    pub closed spec fn namespace(self) -> int {
        self.namespace@
    }

    /// A journal of no requests, with a namespace of its own that nothing is known of.
    pub fn new() -> (journal: Journal)
        ensures
            journal@ == Seq::<Event>::empty(),
        opens_invariants none
        no_unwind
    {
        Journal { log: Ghost(Seq::empty()), namespace: Ghost(arbitrary()) }
    }
}

/// The right to write a flag once. [`swap_flag`] uses it up.
pub struct Flag<'a> {
    cell: &'a AtomicBool,
}

impl<'a> Flag<'a> {
    /// The flag that may be written.
    pub closed spec fn cell(self) -> AtomicBool {
        *self.cell
    }
}

/// What stands for a flag, and can be turned into the right to write it.
pub trait ObservabilityFlag<'a>: Sized {
    /// The flag that is meant.
    spec fn cell(self) -> AtomicBool;

    /// Turns this into the right to write the flag once.
    fn claim(self) -> (flag: Flag<'a>)
        ensures
            flag.cell() == self.cell(),
        opens_invariants none
    ;
}

impl<'a> ObservabilityFlag<'a> for &'a AtomicBool {
    open spec fn cell(self) -> AtomicBool {
        *self
    }

    fn claim(self) -> (flag: Flag<'a>) {
        Flag { cell: self }
    }
}

/// What a swap found in a flag, and the right to put it back. Only [`swap_flag`] makes one, and
/// [`store_flag`] uses it up.
pub struct Prior<'a> {
    flag: &'a AtomicBool,
    value: bool,
}

impl<'a> Prior<'a> {
    /// The flag that was looked at.
    pub closed spec fn flag(self) -> AtomicBool {
        *self.flag
    }

    /// The value that was found.
    pub closed spec fn value(self) -> bool {
        self.value
    }
}

/// Calls `AtomicBool::swap` with relaxed ordering, which writes `to` and returns the value it
/// replaced. Which value that is depends on every thread that writes the flag, so nothing is
/// claimed of it beyond that the journal holds it.
#[verifier::external_body]
pub(crate) fn swap_flag<'a>(journal: &mut Journal, flag: Flag<'a>, to: bool) -> (prior: Prior<'a>)
    ensures
        prior.flag() == flag.cell(),
        final(journal).namespace() == old(journal).namespace(),
        final(journal)@ == old(journal)@.push(
            (Event::FlagSwapped { flag: flag.cell(), to, prior: prior.value() }),
        ),
    opens_invariants [ old(journal).namespace() ]
{
    Prior { flag: flag.cell, value: flag.cell.swap(to, Ordering::Relaxed) }
}

/// Calls `AtomicBool::store` with relaxed ordering, which writes to a flag the value that was found
/// in it. It panics only for orderings that make no sense for a write, which this is not. It opens no
/// namespace, so that a destructor can call it; `prior` is what keeps it from being called at will.
#[verifier::external_body]
pub(crate) fn store_flag(journal: &mut Journal, prior: Prior<'_>)
    ensures
        final(journal).namespace() == old(journal).namespace(),
        final(journal)@ == old(journal)@.push(
            (Event::FlagStored { flag: prior.flag(), to: prior.value() }),
        ),
    opens_invariants none
    no_unwind
{
    prior.flag.store(prior.value, Ordering::Relaxed)
}

/// Calls `AtomicBool::load` with relaxed ordering, which returns what the flag holds. As with
/// [`swap_flag`], the journal holds the answer and nothing else is claimed of it.
#[verifier::external_body]
pub(crate) fn load_flag(journal: &mut Journal, flag: &AtomicBool) -> (value: bool)
    ensures
        final(journal).namespace() == old(journal).namespace(),
        final(journal)@ == old(journal)@.push(Event::FlagLoaded { flag: *flag, value }),
    opens_invariants [ old(journal).namespace() ]
{
    flag.load(Ordering::Relaxed)
}

/// Calls `Instant::now`. The answer is the clock's; the journal holds it.
#[verifier::external_body]
pub(crate) fn read_clock(journal: &mut Journal) -> (now: Instant)
    ensures
        final(journal).namespace() == old(journal).namespace(),
        final(journal)@ == old(journal)@.push(Event::ClockRead { now }),
    opens_invariants [ old(journal).namespace() ]
{
    Instant::now()
}

/// Calls `Instant::elapsed`, the time that has passed since `since`. The answer is the clock's; the
/// journal holds it, together with the instant that was asked about.
#[verifier::external_body]
pub(crate) fn read_elapsed(journal: &mut Journal, since: Instant) -> (elapsed: Duration)
    ensures
        final(journal).namespace() == old(journal).namespace(),
        final(journal)@ == old(journal)@.push(Event::ClockElapsed { since, elapsed }),
    opens_invariants [ old(journal).namespace() ]
{
    since.elapsed()
}

/// Asks the current recorder (`metrics::with_recorder`) for a counter
/// (`Recorder::register_counter`) under a key of the given name and one label (`Key::from_parts`),
/// at the default level with `target` as target and module path (`Metadata::new`), and calls
/// `Counter::increment` on it with `amount`. What a recorder makes of the request is the
/// recorder's own affair, and nothing is claimed of it.
#[verifier::external_body]
pub(crate) fn increment_counter(
    journal: &mut Journal,
    target: &'static str,
    name: &'static str,
    label: &'static str,
    value: &'static str,
    amount: u64,
)
    ensures
        final(journal).namespace() == old(journal).namespace(),
        final(journal)@ == old(journal)@.push(
            (Event::CounterIncremented {
                metric: (Metric { target: target@, name: name@, label: label@, value: value@ }),
                amount,
            }),
        ),
    opens_invariants [ old(journal).namespace() ]
{
    let key = metrics::Key::from_parts(name, vec![metrics::Label::new(label, value)]);
    let metadata = metrics::Metadata::new(target, metrics::Level::INFO, Some(target));
    metrics::with_recorder(|recorder| recorder.register_counter(&key, &metadata)).increment(amount)
}

/// A histogram that a recorder has given, and the metric that it was asked for. Only
/// [`RegisteredHistogram::register`] makes one, so the two belong together.
pub struct RegisteredHistogram {
    handle: metrics::Histogram,
    metric: Ghost<Metric>,
}

impl RegisteredHistogram {
    /// The metric that the recorder was asked for.
    pub closed spec fn metric(self) -> Metric {
        self.metric@
    }

    /// Asks the current recorder for a histogram (`Recorder::register_histogram`) in the way that
    /// [`increment_counter`] asks for a counter, and keeps the handle it gives together with the
    /// metric it was asked for. Nothing else is claimed of the handle.
    #[verifier::external_body]
    pub(crate) fn register(
        journal: &mut Journal,
        target: &'static str,
        name: &'static str,
        label: &'static str,
        value: &'static str,
    ) -> (histogram: Self)
        ensures
            histogram.metric() == (Metric {
                target: target@,
                name: name@,
                label: label@,
                value: value@,
            }),
            final(journal).namespace() == old(journal).namespace(),
            final(journal)@ == old(journal)@.push(
                (Event::HistogramRegistered { metric: histogram.metric() }),
            ),
        opens_invariants [ old(journal).namespace() ]
    {
        let key = metrics::Key::from_parts(name, vec![metrics::Label::new(label, value)]);
        let metadata = metrics::Metadata::new(target, metrics::Level::INFO, Some(target));
        RegisteredHistogram {
            handle: metrics::with_recorder(|recorder| recorder.register_histogram(&key, &metadata)),
            metric: Ghost(Metric { target: target@, name: name@, label: label@, value: value@ }),
        }
    }

    /// Calls `Histogram::record` on the recorder's handle with `sample`, which `metrics` converts
    /// to seconds. The handle is the one that was given for the metric. What it makes of the sample
    /// is the recorder's own affair, and nothing is claimed of it.
    #[verifier::external_body]
    pub(crate) fn record(&self, journal: &mut Journal, sample: Duration)
        ensures
            final(journal).namespace() == old(journal).namespace(),
            final(journal)@ == old(journal)@.push(
                (Event::HistogramRecorded { metric: self.metric(), sample }),
            ),
        opens_invariants [ old(journal).namespace() ]
    {
        self.handle.record(sample)
    }
}

} // verus!
