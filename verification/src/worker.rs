//! Decision core of the polling worker loop.
//!
//! The loop itself (capture, sleeping, the action sink) runs outside the
//! library; every decision it takes — whether a detection qualifies,
//! whether the cooldown permits an action, where to act, what to report,
//! and when to stop — is a function here with an exact contract. The
//! caller feeds in one frame per tick together with the current time and
//! performs the returned action.

use vstd::prelude::*;

use crate::detect::{Detection, Template, detect, spec_detect};
use crate::gate::{GateDecision, GateState, may_act, spec_may_act};

verus! {

/// Snapshot of the user-adjustable parameters a run works with, taken at
/// worker start. The threshold is in millionths, like detection scores.
#[derive(Clone, Copy, PartialEq, Eq, Structural, Debug)]
pub struct WorkerConfig {
    pub threshold_micro: i64,
    pub interval_ms: u64,
    pub cooldown_ms: u64,
    pub click_offset_x: i32,
    pub click_offset_y: i32,
}

/// One captured frame: the pixel grid plus the absolute screen position of
/// its top-left corner.
pub struct Frame {
    pub grid: crate::grid::Grid,
    pub origin_x: i32,
    pub origin_y: i32,
}

/// Events the worker reports to its observer, one per externally
/// observable outcome.
#[derive(Clone, Debug)]
pub enum WorkerEvent {
    Detected {
        score_micro: i64,
        image_x: u32,
        image_y: u32,
        screen_x: i64,
        screen_y: i64,
        width: u32,
        height: u32,
        scale_centi: u32,
    },
    ActionTaken { screen_x: i64, screen_y: i64 },
    Suppressed { score_micro: i64, remaining_ms: u64 },
    SourceError(String),
    Info(String),
    Stopped,
}

/// Lifecycle of one worker run.
#[derive(Clone, Copy, PartialEq, Eq, Structural, Debug)]
pub enum Phase {
    Running,
    Stopped,
}

/// State a worker run owns: its configuration snapshot, its cooldown gate,
/// and its lifecycle phase.
pub struct Worker {
    pub config: WorkerConfig,
    pub gate: GateState,
    pub phase: Phase,
}

/// What one evaluated frame asks the loop to do.
#[derive(Clone, Copy, PartialEq, Eq, Structural, Debug)]
pub enum TickDecision {
    /// No detection, or the score is below the threshold: no event.
    Quiet,
    /// A qualifying detection is held back by the cooldown.
    Suppress { score_micro: i64, remaining_ms: u64 },
    /// A qualifying detection may fire: act at the given screen position.
    Act { screen_x: i64, screen_y: i64, detection: Detection },
}

/// Absolute screen column to act at: frame origin plus the detection's
/// frame-local position, plus half the matched variant (its center), plus
/// the configured offset.
pub open spec fn spec_screen_x(origin_x: i32, d: Detection, offset_x: i32) -> int {
    origin_x + d.x + d.width / 2 + offset_x
}

/// Absolute screen row to act at; see `spec_screen_x`.
pub open spec fn spec_screen_y(origin_y: i32, d: Detection, offset_y: i32) -> int {
    origin_y + d.y + d.height / 2 + offset_y
}

/// The decision a frame's detection outcome leads to: quiet below the
/// threshold (a score exactly at the threshold qualifies), otherwise
/// whatever the cooldown state rules.
pub open spec fn spec_evaluate(
    cfg: WorkerConfig,
    det: Option<Detection>,
    gate: GateState,
    now_ms: u64,
    origin_x: i32,
    origin_y: i32,
) -> TickDecision {
    match det {
        None => TickDecision::Quiet,
        Some(d) => if d.score_micro < cfg.threshold_micro {
            TickDecision::Quiet
        } else {
            match spec_may_act(now_ms, gate, cfg.cooldown_ms) {
                GateDecision::Permit => TickDecision::Act {
                    screen_x: spec_screen_x(origin_x, d, cfg.click_offset_x) as i64,
                    screen_y: spec_screen_y(origin_y, d, cfg.click_offset_y) as i64,
                    detection: d,
                },
                GateDecision::Suppressed { remaining_ms } => TickDecision::Suppress {
                    score_micro: d.score_micro,
                    remaining_ms,
                },
            }
        },
    }
}

impl Worker {
    /// A fresh run: configuration snapshot taken, no action recorded yet.
    pub fn new(config: WorkerConfig) -> (r: Worker)
        ensures
            r.config == config,
            r.gate.last_action_ms is None,
            r.phase is Running,
    {
        Worker { config, gate: GateState::new(), phase: Phase::Running }
    }
}

/// Decide what to do about one already-scored detection.
pub fn evaluate_detection(
    cfg: &WorkerConfig,
    d: &Detection,
    gate: &GateState,
    now_ms: u64,
    origin_x: i32,
    origin_y: i32,
) -> (r: TickDecision)
    ensures
        r == spec_evaluate(*cfg, Some(*d), *gate, now_ms, origin_x, origin_y),
{
    if d.score_micro < cfg.threshold_micro {
        TickDecision::Quiet
    } else {
        match may_act(now_ms, gate, cfg.cooldown_ms) {
            GateDecision::Permit => {
                let sx: i64 = origin_x as i64 + d.x as i64 + (d.width / 2) as i64
                    + cfg.click_offset_x as i64;
                let sy: i64 = origin_y as i64 + d.y as i64 + (d.height / 2) as i64
                    + cfg.click_offset_y as i64;
                TickDecision::Act { screen_x: sx, screen_y: sy, detection: *d }
            },
            GateDecision::Suppressed { remaining_ms } => TickDecision::Suppress {
                score_micro: d.score_micro,
                remaining_ms,
            },
        }
    }
}

/// Run the matcher on one frame and decide what the loop should do. Does
/// not record anything: an action is recorded only by `on_sink_result`.
pub fn on_frame(w: &Worker, frame: &Frame, template: &Template, now_ms: u64) -> (r: TickDecision)
    requires
        w.phase is Running,
        frame.grid.wf(),
        template.wf(),
    ensures
        r == spec_evaluate(
            w.config,
            spec_detect(frame.grid, *template),
            w.gate,
            now_ms,
            frame.origin_x,
            frame.origin_y,
        ),
{
    match detect(&frame.grid, template) {
        None => TickDecision::Quiet,
        Some(d) => evaluate_detection(
            &w.config,
            &d,
            &w.gate,
            now_ms,
            frame.origin_x,
            frame.origin_y,
        ),
    }
}

/// Record the outcome of an attempted action. Only a successful action
/// consumes the cooldown: on failure `GateState` is left untouched, so
/// the next qualifying detection is attempted again.
pub fn on_sink_result(
    w: &mut Worker,
    ok: bool,
    now_ms: u64,
    screen_x: i64,
    screen_y: i64,
    error: String,
) -> (e: WorkerEvent)
    requires
        old(w).phase is Running,
    ensures
        final(w).config == old(w).config,
        final(w).phase == old(w).phase,
        ok ==> final(w).gate.last_action_ms == Some(now_ms),
        ok ==> (e matches WorkerEvent::ActionTaken { screen_x: sx, screen_y: sy } && sx
            == screen_x && sy == screen_y),
        !ok ==> final(w).gate == old(w).gate,
        !ok ==> (e matches WorkerEvent::SourceError(m) && m == error),
{
    if ok {
        crate::gate::record_action(&mut w.gate, now_ms);
        WorkerEvent::ActionTaken { screen_x, screen_y }
    } else {
        WorkerEvent::SourceError(error)
    }
}

/// Observe a cancellation request: enter the terminal phase and report
/// `Stopped`. No worker function accepts a stopped worker, so no event
/// can follow this one.
pub fn on_cancel(w: &mut Worker) -> (e: WorkerEvent)
    ensures
        e is Stopped,
        final(w).phase is Stopped,
        final(w).gate == old(w).gate,
        final(w).config == old(w).config,
{
    w.phase = Phase::Stopped;
    WorkerEvent::Stopped
}

/// Fixed back-off after a frame-capture failure, in milliseconds.
pub const RECOVERY_DELAY_MS: u64 = 250;

/// The poll interval clamped to a sane minimum.
pub open spec fn spec_clamped_interval(cfg: WorkerConfig) -> int {
    if cfg.interval_ms < 10 {
        10
    } else {
        cfg.interval_ms as int
    }
}

/// How long the loop sleeps between ticks: the configured interval,
/// clamped to a sane minimum of 10 ms.
pub fn clamped_interval_ms(cfg: &WorkerConfig) -> (r: u64)
    ensures
        r == spec_clamped_interval(*cfg),
        10 <= r,
{
    if cfg.interval_ms < 10 {
        10
    } else {
        cfg.interval_ms
    }
}

} // verus!