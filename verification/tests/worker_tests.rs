use lol_auto_accept_rs::detect::{Detection, Template};
use lol_auto_accept_rs::gate::{may_act, GateDecision, GateState};
use lol_auto_accept_rs::grid::Grid;
use lol_auto_accept_rs::worker::{
    clamped_interval_ms, evaluate_detection, on_cancel, on_frame, on_sink_result, Frame, Phase,
    TickDecision, Worker, WorkerConfig, WorkerEvent, RECOVERY_DELAY_MS,
};

fn pattern_grid(w: usize, h: usize, seed: u64) -> Grid {
    let mut state = seed;
    let mut out = Vec::with_capacity(w * h);
    for _ in 0..w * h {
        state = state.wrapping_mul(6364136223846793005).wrapping_add(1442695040888963407);
        out.push((state >> 33) as u8);
    }
    Grid::new(w, h, out).expect("grid builds")
}

fn embed(frame_w: usize, frame_h: usize, inner: &Grid, ox: usize, oy: usize) -> Grid {
    let mut pixels = vec![0u8; frame_w * frame_h];
    for j in 0..inner.height {
        for i in 0..inner.width {
            pixels[(oy + j) * frame_w + ox + i] = inner.pixels[j * inner.width + i];
        }
    }
    Grid::new(frame_w, frame_h, pixels).expect("frame builds")
}

fn config(threshold_micro: i64, cooldown_ms: u64) -> WorkerConfig {
    WorkerConfig {
        threshold_micro,
        interval_ms: 120,
        cooldown_ms,
        click_offset_x: 0,
        click_offset_y: 0,
    }
}

fn detection(score_micro: i64) -> Detection {
    Detection { score_micro, x: 10, y: 20, width: 24, height: 24, scale_centi: 120 }
}

#[test]
fn gate_permits_without_prior_action() {
    let state = GateState::new();
    assert!(matches!(may_act(12345, &state, 4000), GateDecision::Permit));
}

#[test]
fn gate_suppresses_one_ms_before_cooldown_end() {
    let t: u64 = 50_000;
    let c: u64 = 4_000;
    let state = GateState { last_action_ms: Some(t) };
    match may_act(t + c - 1, &state, c) {
        GateDecision::Suppressed { remaining_ms } => assert_eq!(remaining_ms, 1),
        GateDecision::Permit => panic!("expected suppression"),
    }
}

#[test]
fn gate_permits_exactly_at_cooldown_end() {
    let t: u64 = 50_000;
    let c: u64 = 4_000;
    let state = GateState { last_action_ms: Some(t) };
    assert!(matches!(may_act(t + c, &state, c), GateDecision::Permit));
}

#[test]
fn score_at_threshold_qualifies() {
    let cfg = config(850_000, 4000);
    let gate = GateState::new();
    let r = evaluate_detection(&cfg, &detection(850_000), &gate, 1000, 0, 0);
    assert!(matches!(r, TickDecision::Act { .. }));
}

#[test]
fn score_below_threshold_is_quiet() {
    let cfg = config(850_000, 4000);
    let gate = GateState::new();
    let r = evaluate_detection(&cfg, &detection(849_999), &gate, 1000, 0, 0);
    assert!(matches!(r, TickDecision::Quiet));
}

#[test]
fn act_coordinates_center_the_match_and_apply_offset() {
    let mut cfg = config(800_000, 4000);
    cfg.click_offset_x = 3;
    cfg.click_offset_y = -2;
    let gate = GateState::new();
    // Marker top-left at (10, 20), size 24x24, origin (100, 200).
    let r = evaluate_detection(&cfg, &detection(900_000), &gate, 1000, 100, 200);
    match r {
        TickDecision::Act { screen_x, screen_y, detection: d } => {
            assert_eq!(screen_x, 100 + 10 + 12 + 3);
            assert_eq!(screen_y, 200 + 20 + 12 - 2);
            assert_eq!(d.score_micro, 900_000);
        }
        other => panic!("expected an action, got {:?}", other),
    }
}

#[test]
fn failed_sink_does_not_consume_cooldown() {
    let mut worker = Worker::new(config(800_000, 4000));
    let d = detection(900_000);

    // A qualifying detection fires; the sink fails.
    let r = evaluate_detection(&worker.config, &d, &worker.gate, 1000, 0, 0);
    assert!(matches!(r, TickDecision::Act { .. }));
    let e = on_sink_result(&mut worker, false, 1000, 22, 32, String::from("boom"));
    assert!(matches!(e, WorkerEvent::SourceError(_)));
    assert_eq!(worker.gate.last_action_ms, None);

    // The next qualifying tick attempts again instead of being suppressed.
    let r = evaluate_detection(&worker.config, &d, &worker.gate, 1120, 0, 0);
    assert!(matches!(r, TickDecision::Act { .. }));
}

#[test]
fn successful_sink_starts_cooldown() {
    let mut worker = Worker::new(config(800_000, 4000));
    let d = detection(900_000);

    let e = on_sink_result(&mut worker, true, 1000, 22, 32, String::new());
    match e {
        WorkerEvent::ActionTaken { screen_x, screen_y } => {
            assert_eq!((screen_x, screen_y), (22, 32));
        }
        other => panic!("expected an action event, got {:?}", other),
    }
    assert_eq!(worker.gate.last_action_ms, Some(1000));

    // Within the cooldown the same detection is suppressed.
    let r = evaluate_detection(&worker.config, &d, &worker.gate, 2000, 0, 0);
    match r {
        TickDecision::Suppress { score_micro, remaining_ms } => {
            assert_eq!(score_micro, 900_000);
            assert_eq!(remaining_ms, 3000);
        }
        other => panic!("expected suppression, got {:?}", other),
    }
}

#[test]
fn cancellation_stops_immediately() {
    let mut worker = Worker::new(config(800_000, 4000));
    let e = on_cancel(&mut worker);
    assert!(matches!(e, WorkerEvent::Stopped));
    assert_eq!(worker.phase, Phase::Stopped);
}

#[test]
fn sleep_lengths_are_bounded() {
    // The loop's only waits are the clamped interval and the fixed
    // recovery delay, so a stop request is seen within their sum.
    let mut cfg = config(800_000, 4000);
    cfg.interval_ms = 5;
    assert_eq!(clamped_interval_ms(&cfg), 10);
    cfg.interval_ms = 120;
    assert_eq!(clamped_interval_ms(&cfg), 120);
    assert_eq!(RECOVERY_DELAY_MS, 250);
}

#[test]
fn end_to_end_scaled_marker_triggers_action() {
    // A 20x20 marker; the frame holds its 1.2x-scaled copy at (50, 50).
    let base = pattern_grid(20, 20, 42);
    let template = Template::build(&base);
    let v120 = &template.variants[11];
    assert_eq!(v120.scale_centi, 120);
    let sample = embed(200, 200, &v120.grid, 50, 50);

    let mut cfg = config(850_000, 4000);
    cfg.click_offset_x = 3;
    cfg.click_offset_y = -2;
    let worker = Worker::new(cfg);
    let frame = Frame { grid: sample, origin_x: 100, origin_y: 200 };

    let r = on_frame(&worker, &frame, &template, 1000);
    match r {
        TickDecision::Act { screen_x, screen_y, detection: d } => {
            assert!(d.score_micro > 850_000, "score {}", d.score_micro);
            assert_eq!(d.scale_centi, 120);
            assert_eq!((d.x, d.y), (50, 50));
            let (half_w, half_h) = ((d.width / 2) as i64, (d.height / 2) as i64);
            assert_eq!(screen_x, 100 + 50 + half_w + 3);
            assert_eq!(screen_y, 200 + 50 + half_h - 2);
        }
        other => panic!("expected an action, got {:?}", other),
    }
}
