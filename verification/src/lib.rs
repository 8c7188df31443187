//! Low-overhead stage instrumentation for the AgentSight pipeline.
//!
//! A [`StageTimer`] reports one invocation of a pipeline stage to the recorder that the `metrics`
//! crate finds installed: a call, the values it produced, and how long it took. Timers report only
//! while an observability flag is raised, and [`with_observability_enabled`] raises it for the
//! duration of a callback.
//!
//! Everything these functions do is done to things outside the program's values: an atomic flag,
//! the clock, a metrics recorder. A [`Journal`] is the ghost record of what was asked of them through
//! it, and the contracts state exactly what each function adds to the journal it is given. Timers can
//! ask nothing through any other journal, and a scope can write its flag through no other.

pub mod history;
pub mod journal;
pub mod laws;
pub mod observability;
pub mod stage_timer;

pub use crate::journal::Journal;
pub use crate::observability::with_observability_enabled;
pub use crate::stage_timer::StageTimer;
