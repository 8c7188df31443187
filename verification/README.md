# agentsight stage metrics

Low-overhead instrumentation of the AgentSight pipeline's stages, written in Verus.

- `src/journal.rs`: the ghost journal of requests, and the calls into `metrics`, the clock and the
  observability flag that append to it. Everything that is trusted is in this file.
- `src/observability.rs`: `with_observability_enabled`, which turns instrumentation on for the
  duration of a callback.
- `src/stage_timer.rs`: `StageTimer`, which reports one invocation of a stage.
- `src/laws.rs`: what holds across calls.
- `src/history.rs`: what holds of timers whose lives overlap.
- `app/`: one process-wide flag, and a timer that reports when it is dropped.

| Metric | Kind | Meaning |
| --- | --- | --- |
| `agentsight_stage_calls_total{stage}` | counter | invocations of the stage |
| `agentsight_stage_outputs_total{stage}` | counter | values that the stage produced |
| `agentsight_stage_duration_seconds{stage}` | histogram | how long each invocation took |
