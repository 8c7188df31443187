use agentsight::observability::ObservabilityGuard;
use agentsight::with_observability_enabled;
use agentsight::Journal;
use agentsight::StageTimer;
use metrics::Counter;
use metrics::CounterFn;
use metrics::Gauge;
use metrics::Histogram;
use metrics::HistogramFn;
use metrics::Key;
use metrics::KeyName;
use metrics::Level;
use metrics::Metadata;
use metrics::Recorder;
use metrics::SharedString;
use metrics::Unit;
use metrics_exporter_prometheus::PrometheusBuilder;
use std::sync::atomic::AtomicBool;
use std::sync::atomic::Ordering;
use std::sync::Arc;
use std::sync::Mutex;
use std::time::Duration;
use std::time::Instant;

/// A request as a recorder sees it.
#[derive(Clone, Debug, PartialEq)]
struct Request {
    kind: &'static str,
    name: String,
    labels: Vec<(String, String)>,
    value: f64,
}

/// One metric of a [`Capture`].
struct Handle {
    request: Request,
    requests: Arc<Mutex<Vec<Request>>>,
}

impl Handle {
    fn keep(&self, value: f64) {
        let request = Request { value, ..self.request.clone() };
        self.requests.lock().unwrap().push(request);
    }
}

impl CounterFn for Handle {
    fn increment(&self, value: u64) {
        self.keep(value as f64);
    }

    fn absolute(&self, _value: u64) {
        panic!("no counter is set");
    }
}

impl HistogramFn for Handle {
    fn record(&self, value: f64) {
        self.keep(value);
    }
}

/// A recorder that keeps every request.
struct Capture {
    requests: Arc<Mutex<Vec<Request>>>,
    /// How long the recorder takes to give a histogram.
    delay: Duration,
}

impl Capture {
    fn new() -> Capture {
        Capture { requests: Arc::new(Mutex::new(Vec::new())), delay: Duration::ZERO }
    }

    fn handle(&self, kind: &'static str, key: &Key, metadata: &Metadata<'_>) -> Arc<Handle> {
        let module = "agentsight::runtime_metrics";
        assert_eq!(*metadata, Metadata::new(module, Level::INFO, Some(module)));
        let labels = key
            .labels()
            .map(|label| (label.key().to_string(), label.value().to_string()))
            .collect();
        let request = Request {
            kind,
            name: key.name().to_string(),
            labels,
            value: 0.0,
        };
        Arc::new(Handle { request, requests: Arc::clone(&self.requests) })
    }

    fn take(&self) -> Vec<Request> {
        self.requests.lock().unwrap().drain(..).collect()
    }
}

impl Recorder for Capture {
    fn describe_counter(&self, _key: KeyName, _unit: Option<Unit>, _text: SharedString) {
        panic!("no metric is described");
    }

    fn describe_gauge(&self, _key: KeyName, _unit: Option<Unit>, _text: SharedString) {
        panic!("no metric is described");
    }

    fn describe_histogram(&self, _key: KeyName, _unit: Option<Unit>, _text: SharedString) {
        panic!("no metric is described");
    }

    fn register_counter(&self, key: &Key, metadata: &Metadata<'_>) -> Counter {
        Counter::from_arc(self.handle("counter", key, metadata))
    }

    fn register_gauge(&self, _key: &Key, _metadata: &Metadata<'_>) -> Gauge {
        panic!("there is no gauge");
    }

    fn register_histogram(&self, key: &Key, metadata: &Metadata<'_>) -> Histogram {
        wait(self.delay);
        Histogram::from_arc(self.handle("histogram", key, metadata))
    }
}

/// Lets at least `delay` pass.
fn wait(delay: Duration) {
    let start = Instant::now();
    while start.elapsed() < delay {}
}

/// Ends an invocation that took `elapsed`.
fn finish_after(timer: StageTimer, journal: &mut Journal, elapsed: Duration) {
    if let Some(stopped) = timer.stop(journal) {
        stopped.report(journal, elapsed);
    }
}

fn request(kind: &'static str, name: &str, stage: &str, value: f64) -> Request {
    Request {
        kind,
        name: name.to_string(),
        labels: vec![("stage".to_string(), stage.to_string())],
        value,
    }
}

#[test]
fn stage_timer_records_calls_outputs_and_duration() {
    let recorder = PrometheusBuilder::new().build_recorder();
    let handle = recorder.handle();
    metrics::with_local_recorder(&recorder, || {
        let mut journal = Journal::new();
        let timer = StageTimer::start_if(&mut journal, "parser", true);
        timer.record_outputs(&mut journal, 2);
        timer.drop(&mut journal);
    });

    let snapshot = handle.render();
    assert!(snapshot.contains("agentsight_stage_calls_total{stage=\"parser\"} 1"));
    assert!(snapshot.contains("agentsight_stage_outputs_total{stage=\"parser\"} 2"));
    assert!(snapshot.contains("agentsight_stage_duration_seconds{stage=\"parser\""));
}

#[test]
fn disabled_stage_timer_is_silent() {
    let recorder = PrometheusBuilder::new().build_recorder();
    let handle = recorder.handle();
    metrics::with_local_recorder(&recorder, || {
        let mut journal = Journal::new();
        let timer = StageTimer::start_if(&mut journal, "parser", false);
        timer.record_outputs(&mut journal, 2);
        timer.drop(&mut journal);
    });

    assert!(handle.render().is_empty());
}

#[test]
fn invocations_of_several_stages_add_up() {
    let recorder = PrometheusBuilder::new().build_recorder();
    let handle = recorder.handle();
    let flag = AtomicBool::new(false);
    metrics::with_local_recorder(&recorder, || {
        with_observability_enabled(&flag, &mut Journal::new(), |journal| {
            for (stage, outputs) in [
                ("parser", 3),
                ("aggregator", 0),
                ("parser", 4),
                ("aggregator", 1),
                ("analyzer", 5),
            ] {
                let timer = StageTimer::start(&flag, journal, stage);
                timer.record_outputs(journal, outputs);
                finish_after(timer, journal, Duration::from_millis(1500));
            }
        });
    });

    let snapshot = handle.render();
    assert!(snapshot.contains("agentsight_stage_calls_total{stage=\"parser\"} 2\n"));
    assert!(snapshot.contains("agentsight_stage_calls_total{stage=\"aggregator\"} 2\n"));
    assert!(snapshot.contains("agentsight_stage_calls_total{stage=\"analyzer\"} 1\n"));
    assert!(snapshot.contains("agentsight_stage_outputs_total{stage=\"parser\"} 7\n"));
    assert!(snapshot.contains("agentsight_stage_outputs_total{stage=\"aggregator\"} 1\n"));
    assert!(snapshot.contains("agentsight_stage_outputs_total{stage=\"analyzer\"} 5\n"));
    assert!(snapshot.contains("agentsight_stage_duration_seconds_sum{stage=\"parser\"} 3\n"));
    assert!(snapshot.contains("agentsight_stage_duration_seconds_count{stage=\"parser\"} 2\n"));
}

#[test]
fn overlapping_invocations_count_like_successive_ones() {
    let recorder = PrometheusBuilder::new().build_recorder();
    let handle = recorder.handle();
    metrics::with_local_recorder(&recorder, || {
        let mut journal = Journal::new();
        let outer = StageTimer::start_if(&mut journal, "parser", true);
        let inner = StageTimer::start_if(&mut journal, "parser", true);
        outer.record_outputs(&mut journal, 2);
        inner.record_outputs(&mut journal, 3);
        outer.drop(&mut journal);
        inner.drop(&mut journal);
    });

    let snapshot = handle.render();
    assert!(snapshot.contains("agentsight_stage_calls_total{stage=\"parser\"} 2\n"));
    assert!(snapshot.contains("agentsight_stage_outputs_total{stage=\"parser\"} 5\n"));
    assert!(snapshot.contains("agentsight_stage_duration_seconds_count{stage=\"parser\"} 2\n"));
}

#[test]
fn requests_reach_the_recorder_in_order_and_in_full() {
    let recorder = Capture::new();
    metrics::with_local_recorder(&recorder, || {
        let mut journal = Journal::new();
        let timer = StageTimer::started_at(&mut journal, "genai", Some(Instant::now()));
        timer.record_outputs(&mut journal, 7);
        timer.record_outputs(&mut journal, 0);
        finish_after(timer, &mut journal, Duration::from_millis(2250));
    });

    assert_eq!(
        recorder.take(),
        vec![
            request("counter", "agentsight_stage_calls_total", "genai", 1.0),
            request("counter", "agentsight_stage_outputs_total", "genai", 7.0),
            request("counter", "agentsight_stage_outputs_total", "genai", 0.0),
            request("histogram", "agentsight_stage_duration_seconds", "genai", 2.25),
        ]
    );
}

#[test]
fn timer_without_a_starting_point_makes_no_request() {
    let recorder = Capture::new();
    metrics::with_local_recorder(&recorder, || {
        let mut journal = Journal::new();
        let timer = StageTimer::started_at(&mut journal, "genai", None);
        timer.record_outputs(&mut journal, usize::MAX);
        finish_after(timer, &mut journal, Duration::from_secs(1));
    });

    assert!(recorder.take().is_empty());
}

#[test]
fn drop_reports_the_time_since_the_start() {
    let recorder = Capture::new();
    let mut passed = Duration::ZERO;
    let mut longest = Duration::ZERO;
    metrics::with_local_recorder(&recorder, || {
        let mut journal = Journal::new();
        let before = Instant::now();
        let timer = StageTimer::start_if(&mut journal, "parser", true);
        let after = Instant::now();
        wait(Duration::from_millis(5));
        passed = after.elapsed();
        timer.drop(&mut journal);
        longest = before.elapsed();
    });

    let requests = recorder.take();
    assert_eq!(requests.len(), 2);
    assert_eq!(requests[0], request("counter", "agentsight_stage_calls_total", "parser", 1.0));
    assert_eq!(requests[1].name, "agentsight_stage_duration_seconds");
    assert!(requests[1].value >= passed.as_secs_f64());
    assert!(requests[1].value <= longest.as_secs_f64());
}

#[test]
fn requests_before_a_recorder_is_installed_are_dropped() {
    let recorder = Capture::new();
    let mut journal = Journal::new();
    let early = StageTimer::start_if(&mut journal, "early", true);
    early.record_outputs(&mut journal, 2);
    early.drop(&mut journal);
    metrics::with_local_recorder(&recorder, || {
        let timer = StageTimer::start_if(&mut journal, "parser", true);
        timer.record_outputs(&mut journal, 3);
    });
    assert_eq!(
        recorder.take(),
        vec![
            request("counter", "agentsight_stage_calls_total", "parser", 1.0),
            request("counter", "agentsight_stage_outputs_total", "parser", 3.0),
        ]
    );
}

#[test]
fn the_wait_for_the_histogram_counts_as_part_of_the_invocation() {
    let recorder = Capture { delay: Duration::from_millis(20), ..Capture::new() };
    metrics::with_local_recorder(&recorder, || {
        let mut journal = Journal::new();
        let timer = StageTimer::start_if(&mut journal, "parser", true);
        timer.drop(&mut journal);
    });
    let requests = recorder.take();
    assert_eq!(requests.len(), 2);
    assert_eq!(requests[1].name, "agentsight_stage_duration_seconds");
    assert!(requests[1].value >= 0.02);
}

#[test]
fn stopped_timer_reports_only_what_it_is_told() {
    let recorder = Capture::new();
    metrics::with_local_recorder(&recorder, || {
        let mut journal = Journal::new();
        let timer = StageTimer::start_if(&mut journal, "parser", true);
        let stopped = timer.stop(&mut journal);
        assert_eq!(recorder.take().len(), 1);
        stopped.unwrap().report(&mut journal, Duration::from_millis(500));
        let untimed = StageTimer::start_if(&mut journal, "parser", false);
        assert!(untimed.stop(&mut journal).is_none());
    });
    assert_eq!(
        recorder.take(),
        vec![request("histogram", "agentsight_stage_duration_seconds", "parser", 0.5)]
    );
}

#[test]
fn calls_without_duration_are_running() {
    let recorder = PrometheusBuilder::new().build_recorder();
    let handle = recorder.handle();
    metrics::with_local_recorder(&recorder, || {
        let mut journal = Journal::new();
        let first = StageTimer::start_if(&mut journal, "parser", true);
        let second = StageTimer::start_if(&mut journal, "parser", true);
        let third = StageTimer::start_if(&mut journal, "parser", false);
        second.record_outputs(&mut journal, 4);
        first.drop(&mut journal);
        third.drop(&mut journal);
        let snapshot = handle.render();
        assert!(snapshot.contains("agentsight_stage_calls_total{stage=\"parser\"} 2\n"));
        assert!(snapshot.contains("agentsight_stage_duration_seconds_count{stage=\"parser\"} 1\n"));
        second.drop(&mut journal);
    });
    let snapshot = handle.render();
    assert!(snapshot.contains("agentsight_stage_calls_total{stage=\"parser\"} 2\n"));
    assert!(snapshot.contains("agentsight_stage_duration_seconds_count{stage=\"parser\"} 2\n"));
}

#[test]
fn enclosing_invocation_takes_longer() {
    let recorder = Capture::new();
    metrics::with_local_recorder(&recorder, || {
        let mut journal = Journal::new();
        let outer = StageTimer::start_if(&mut journal, "outer", true);
        wait(Duration::from_millis(2));
        let inner = StageTimer::start_if(&mut journal, "inner", true);
        wait(Duration::from_millis(2));
        inner.drop(&mut journal);
        wait(Duration::from_millis(2));
        outer.drop(&mut journal);
    });
    let requests = recorder.take();
    assert_eq!(requests.len(), 4);
    assert_eq!(requests[2].labels, vec![("stage".to_string(), "inner".to_string())]);
    assert_eq!(requests[3].labels, vec![("stage".to_string(), "outer".to_string())]);
    assert!(requests[2].value >= 0.002);
    assert!(requests[3].value >= requests[2].value + 0.004);
}

#[test]
fn dropped_guard_restores_the_flag() {
    for prior in [false, true] {
        let flag = AtomicBool::new(prior);
        let mut journal = Journal::new();
        let guard = ObservabilityGuard::raise(&mut journal, &flag);
        assert!(flag.load(Ordering::Relaxed));
        flag.store(!prior, Ordering::Relaxed);
        drop(guard);
        assert_eq!(flag.load(Ordering::Relaxed), prior);
    }
}

#[test]
fn scope_raises_the_flag_and_restores_it() {
    let flag = AtomicBool::new(false);
    let inside = with_observability_enabled(&flag, &mut Journal::new(), |_| {
        flag.load(Ordering::Relaxed)
    });
    assert!(inside);
    assert!(!flag.load(Ordering::Relaxed));
}

#[test]
fn scope_leaves_a_raised_flag_raised() {
    let flag = AtomicBool::new(true);
    let inside = with_observability_enabled(&flag, &mut Journal::new(), |_| {
        flag.load(Ordering::Relaxed)
    });
    assert!(inside);
    assert!(flag.load(Ordering::Relaxed));
}

#[test]
fn scope_hands_on_the_result() {
    let flag = AtomicBool::new(false);
    let text = String::from("done");
    let result = with_observability_enabled(&flag, &mut Journal::new(), |_| (text, 42));
    assert_eq!(result, (String::from("done"), 42));
}

#[test]
fn scope_undoes_what_its_callback_writes_to_the_flag() {
    let flag = AtomicBool::new(true);
    with_observability_enabled(&flag, &mut Journal::new(), |_| {
        flag.store(false, Ordering::Relaxed);
    });
    assert!(flag.load(Ordering::Relaxed));
}

#[test]
fn nested_scope_keeps_the_flag_raised() {
    let flag = AtomicBool::new(false);
    let seen = with_observability_enabled(&flag, &mut Journal::new(), |journal| {
        let inner = with_observability_enabled(&flag, journal, |_| flag.load(Ordering::Relaxed));
        (inner, flag.load(Ordering::Relaxed))
    });
    assert_eq!(seen, (true, true));
    assert!(!flag.load(Ordering::Relaxed));
}

#[test]
fn timers_report_only_while_the_flag_is_raised() {
    let recorder = Capture::new();
    let flag = AtomicBool::new(false);
    metrics::with_local_recorder(&recorder, || {
        let mut journal = Journal::new();
        let early = StageTimer::start(&flag, &mut journal, "early");
        let timed = with_observability_enabled(&flag, &mut journal, |journal| {
            early.record_outputs(journal, 1);
            StageTimer::start(&flag, journal, "timed")
        });
        finish_after(early, &mut journal, Duration::from_secs(1));
        let late = StageTimer::start(&flag, &mut journal, "late");
        finish_after(late, &mut journal, Duration::from_secs(1));
        finish_after(timed, &mut journal, Duration::from_secs(4));
    });

    assert_eq!(
        recorder.take(),
        vec![
            request("counter", "agentsight_stage_calls_total", "timed", 1.0),
            request("histogram", "agentsight_stage_duration_seconds", "timed", 4.0),
        ]
    );
}

#[test]
fn each_flag_stands_for_itself() {
    let recorder = Capture::new();
    let raised = AtomicBool::new(true);
    let lowered = AtomicBool::new(false);
    metrics::with_local_recorder(&recorder, || {
        let mut journal = Journal::new();
        with_observability_enabled(&raised, &mut journal, |journal| {
            let timer = StageTimer::start(&lowered, journal, "parser");
            finish_after(timer, journal, Duration::from_secs(1));
        });
    });
    assert!(recorder.take().is_empty());
    assert!(raised.load(Ordering::Relaxed));
    assert!(!lowered.load(Ordering::Relaxed));
}
