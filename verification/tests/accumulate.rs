use av2::plan_sweeps;
use av2::AccumError;
use av2::SweepTask;

fn ids(names: &[&str]) -> Vec<String> {
    names.iter().map(|s| s.to_string()).collect()
}

fn task(index: usize, timestamp_ns: u64, delta_ns: i128, compensate: bool) -> SweepTask {
    SweepTask { index, timestamp_ns, delta_ns, compensate }
}

#[test]
fn single_sweep_window() {
    let log_ids = ids(&["a"]);
    let ts = vec![100];
    let plan = plan_sweeps(&log_ids, &ts, &"a".to_string(), 100, 0, 1).unwrap();
    assert_eq!(plan, vec![task(0, 100, 0, false)]);
}

#[test]
fn query_time_sweep_not_compensated_and_zero_offset() {
    let log_ids = ids(&["a", "a", "a"]);
    let ts = vec![10, 20, 30];
    let plan = plan_sweeps(&log_ids, &ts, &"a".to_string(), 30, 2, 3).unwrap();
    // The query sweep (row 2, captured at the query timestamp) keeps its
    // points: no compensation, time offset exactly zero.
    assert_eq!(plan[0], task(2, 30, 0, false));
    assert!(plan.iter().all(|t| t.compensate == (t.timestamp_ns != 30)));
}

#[test]
fn window_truncated_by_session_boundary() {
    // The two rows before the query belong to another session: the plan
    // holds only the query sweep, and that is not an error.
    let log_ids = ids(&["a", "a", "b"]);
    let ts = vec![10, 20, 30];
    let plan = plan_sweeps(&log_ids, &ts, &"b".to_string(), 30, 2, 3).unwrap();
    assert_eq!(plan, vec![task(2, 30, 0, false)]);
}

#[test]
fn session_boundary_inside_window_keeps_later_rows() {
    // Only the oldest row belongs to another session; the two rows of the
    // query's session survive, newest first.
    let log_ids = ids(&["a", "b", "b"]);
    let ts = vec![10, 20, 30];
    let plan = plan_sweeps(&log_ids, &ts, &"b".to_string(), 30, 2, 3).unwrap();
    assert_eq!(plan, vec![task(2, 30, 0, false), task(1, 20, 10, true)]);
}

#[test]
fn two_sweep_window_order_and_offsets() {
    // Two sweeps 100_000_000 ns apart; the query at the later one. The plan
    // is reverse-chronological (query sweep first), the query sweep has
    // offset zero, the older sweep is compensated and offset by the full
    // timestamp difference.
    let t0: u64 = 315967376899099000;
    let t1: u64 = t0 + 100_000_000;
    let log_ids = ids(&["l", "l"]);
    let ts = vec![t0, t1];
    let plan = plan_sweeps(&log_ids, &ts, &"l".to_string(), t1, 1, 2).unwrap();
    assert_eq!(plan, vec![task(1, t1, 0, false), task(0, t0, 100_000_000, true)]);
    // Scaled to float seconds as the output column stores it.
    assert!((plan[1].delta_ns as f32 * 1e-9 - 0.1).abs() < 1e-6);
    assert_eq!(plan[0].delta_ns as f32 * 1e-9, 0.0);
}

#[test]
fn reverse_chronological_order() {
    let log_ids = ids(&["l", "l", "l", "l"]);
    let ts = vec![1, 2, 3, 4];
    let plan = plan_sweeps(&log_ids, &ts, &"l".to_string(), 4, 3, 3).unwrap();
    let indices: Vec<usize> = plan.iter().map(|t| t.index).collect();
    assert_eq!(indices, vec![3, 2, 1]);
}

#[test]
fn window_clamped_at_start_of_index() {
    // A window larger than the available history starts at row zero.
    let log_ids = ids(&["l", "l"]);
    let ts = vec![1, 2];
    let plan = plan_sweeps(&log_ids, &ts, &"l".to_string(), 2, 1, 10).unwrap();
    assert_eq!(plan.len(), 2);
    assert_eq!(plan[0].index, 1);
    assert_eq!(plan[1].index, 0);
}

#[test]
fn empty_candidate_set_is_fatal() {
    // No row of the window carries the query's session: the call fails
    // rather than producing a silently empty cloud.
    let log_ids = ids(&["a", "b"]);
    let ts = vec![1, 2];
    let r = plan_sweeps(&log_ids, &ts, &"c".to_string(), 2, 1, 2);
    assert_eq!(r, Err(AccumError::EmptyWindow));
}

#[test]
fn older_sweeps_of_same_session_are_compensated() {
    let log_ids = ids(&["l", "l", "l"]);
    let ts = vec![100, 200, 300];
    let plan = plan_sweeps(&log_ids, &ts, &"l".to_string(), 300, 2, 3).unwrap();
    assert_eq!(
        plan,
        vec![task(2, 300, 0, false), task(1, 200, 100, true), task(0, 100, 200, true)]
    );
}
