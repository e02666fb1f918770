use anon_pipeline::regression::{
    frame_id, id_frame, run_simulation, SimulationError, INGRESS_WINDOW_TICKS, MAX_DELAY_MS,
    MIN_DELAY_MS,
};

const REGRESSION_THRESHOLD: f64 = 0.05;

fn correlation(users: usize, total_frames: usize) -> f64 {
    let trace = run_simulation(users, total_frames).expect("simulation did not complete");
    assert_eq!(trace.ingress_ticks.len(), total_frames);
    assert_eq!(trace.egress_ticks.len(), total_frames);
    for (ingress, egress) in trace.ingress_ticks.iter().zip(trace.egress_ticks.iter()) {
        assert!(*ingress < INGRESS_WINDOW_TICKS);
        assert!(*egress >= ingress + MIN_DELAY_MS);
        assert!(*egress <= INGRESS_WINDOW_TICKS + MAX_DELAY_MS + 1);
    }
    let ingress: Vec<f64> = trace.ingress_ticks.iter().map(|t| *t as f64).collect();
    let egress: Vec<f64> = trace.egress_ticks.iter().map(|t| *t as f64).collect();
    pearson_corr(&ingress, &egress)
}

fn pearson_corr(xs: &[f64], ys: &[f64]) -> f64 {
    let n = xs.len();
    assert_eq!(n, ys.len());
    let n_f = n as f64;
    let mean_x = xs.iter().sum::<f64>() / n_f;
    let mean_y = ys.iter().sum::<f64>() / n_f;
    let mut num = 0.0;
    let mut denom_x = 0.0;
    let mut denom_y = 0.0;
    for i in 0..n {
        let dx = xs[i] - mean_x;
        let dy = ys[i] - mean_y;
        num += dx * dy;
        denom_x += dx * dx;
        denom_y += dy * dy;
    }
    if denom_x == 0.0 || denom_y == 0.0 {
        0.0
    } else {
        num / (denom_x.sqrt() * denom_y.sqrt())
    }
}

#[test]
fn anonymity_regression_gate_single_user() {
    let r = correlation(1, 20_000);
    assert!(
        r.abs() <= REGRESSION_THRESHOLD,
        "ANONYMITY REGRESSION: single-user correlation {r} exceeds threshold {REGRESSION_THRESHOLD}"
    );
}

#[test]
fn anonymity_regression_gate_multi_user() {
    let r = correlation(5, 100_000);
    assert!(
        r.abs() <= REGRESSION_THRESHOLD,
        "ANONYMITY REGRESSION: multi-user correlation {r} exceeds threshold {REGRESSION_THRESHOLD}"
    );
}

#[test]
fn simulation_is_repeatable() {
    let first = run_simulation(2, 10_000).unwrap();
    let second = run_simulation(2, 10_000).unwrap();
    assert_eq!(first, second);
    assert_eq!(first.ingress_ticks[0], 0);
    assert_eq!(first.ingress_ticks[1], 0);
    assert_eq!(first.ingress_ticks[2], 1);
    assert_eq!(first.ingress_ticks[9_999], 4_999);
}

#[test]
fn simulation_needs_a_frame_per_user_and_tick() {
    assert_eq!(run_simulation(0, 100).err(), Some(SimulationError::NoFramesPerTick));
    assert_eq!(run_simulation(1, 4_999).err(), Some(SimulationError::NoFramesPerTick));
    assert_eq!(run_simulation(3, 14_999).err(), Some(SimulationError::NoFramesPerTick));
    assert_eq!(run_simulation(usize::MAX, 100).err(), Some(SimulationError::NoFramesPerTick));
    assert_eq!(run_simulation(1, 0).err(), Some(SimulationError::NoFramesPerTick));
}

#[test]
fn frames_carry_their_number() {
    assert_eq!(id_frame(1), vec![0, 0, 0, 0, 0, 0, 0, 1]);
    assert_eq!(id_frame(0x0102030405060708), vec![1, 2, 3, 4, 5, 6, 7, 8]);
    assert_eq!(frame_id(&vec![1, 2, 3, 4, 5, 6, 7, 8, 9]), Some(0x0102030405060708));
    assert_eq!(frame_id(&id_frame(u64::MAX)), Some(u64::MAX));
    assert_eq!(frame_id(&vec![1, 2, 3]), None);
}

#[test]
fn pearson_of_a_line_is_one() {
    let xs = [1.0, 2.0, 3.0, 4.0];
    let up = [2.0, 4.0, 6.0, 8.0];
    let down = [8.0, 6.0, 4.0, 2.0];
    let flat = [5.0, 5.0, 5.0, 5.0];
    assert!((pearson_corr(&xs, &up) - 1.0).abs() < 1e-12);
    assert!((pearson_corr(&xs, &down) + 1.0).abs() < 1e-12);
    assert_eq!(pearson_corr(&xs, &flat), 0.0);
}
