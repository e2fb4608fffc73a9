use loudness_meter::level::MIN_DB;
use loudness_meter::time_window::TimeWindow;

const SECOND: u64 = 1_000_000_000;
const MILLISECOND: u64 = 1_000_000;

#[test]
fn empty_window_reports_the_floor() {
    let window = TimeWindow::new(SECOND);
    assert_eq!(window.max(), MIN_DB);
}

#[test]
fn window_keeps_its_retention() {
    assert_eq!(TimeWindow::new(SECOND).retention(), SECOND);
    assert_eq!(TimeWindow::new(0).retention(), 0);
    assert_eq!(TimeWindow::new(u64::MAX).retention(), u64::MAX);
}

#[test]
fn single_push_is_reported_at_once() {
    let mut window = TimeWindow::new(SECOND);
    window.push(0, -10_000);
    assert_eq!(window.max(), -10_000);
}

#[test]
fn short_window_drops_what_is_older_than_its_retention() {
    let mut window = TimeWindow::new(200 * MILLISECOND);
    window.push(0, -40_000);
    assert_eq!(window.max(), -40_000);
    window.push(100 * MILLISECOND, -5_000);
    assert_eq!(window.max(), -5_000);
    window.push(300 * MILLISECOND, -30_000);
    assert_eq!(window.max(), -5_000);
}

#[test]
fn long_window_keeps_all_three() {
    let mut window = TimeWindow::new(SECOND);
    window.push(0, -40_000);
    window.push(100 * MILLISECOND, -5_000);
    window.push(300 * MILLISECOND, -30_000);
    assert_eq!(window.max(), -5_000);
}

#[test]
fn loudest_sample_leaves_when_it_ages_out() {
    let mut window = TimeWindow::new(200 * MILLISECOND);
    window.push(0, -5_000);
    window.push(100 * MILLISECOND, -40_000);
    assert_eq!(window.max(), -5_000);
    window.push(201 * MILLISECOND, -30_000);
    assert_eq!(window.max(), -30_000);
    window.push(301 * MILLISECOND, -50_000);
    assert_eq!(window.max(), -30_000);
    window.push(402 * MILLISECOND, -60_000);
    assert_eq!(window.max(), -50_000);
}

#[test]
fn sample_exactly_at_the_retention_is_kept() {
    let mut window = TimeWindow::new(200);
    window.push(100, -1_000);
    window.push(300, -2_000);
    assert_eq!(window.max(), -1_000);
    window.push(301, -3_000);
    assert_eq!(window.max(), -2_000);
}

#[test]
fn newest_sample_is_never_evicted() {
    let mut window = TimeWindow::new(0);
    window.push(0, -10_000);
    assert_eq!(window.max(), -10_000);
    window.push(1, -20_000);
    assert_eq!(window.max(), -20_000);
    window.push(1_000 * SECOND, -70_000);
    assert_eq!(window.max(), -70_000);
}

#[test]
fn long_gap_evicts_everything_but_the_newest() {
    let mut window = TimeWindow::new(SECOND);
    for i in 0..50u64 {
        window.push(i * MILLISECOND, -1_000 - i as i32);
    }
    assert_eq!(window.max(), -1_000);
    window.push(3_600 * SECOND, -80_000);
    assert_eq!(window.max(), -80_000);
}

#[test]
fn floor_is_reported_only_for_a_sample_at_the_floor() {
    let mut window = TimeWindow::new(SECOND);
    window.push(0, MIN_DB);
    assert_eq!(window.max(), MIN_DB);
    window.push(10 * SECOND, MIN_DB + 1);
    assert_eq!(window.max(), MIN_DB + 1);
    window.push(20 * SECOND, MIN_DB);
    assert_eq!(window.max(), MIN_DB);
}

#[test]
fn simultaneous_samples_are_all_retained() {
    let mut window = TimeWindow::new(SECOND);
    window.push(5, -5_000);
    window.push(5, -40_000);
    assert_eq!(window.max(), -5_000);
    window.push(5, -1_000);
    assert_eq!(window.max(), -1_000);
    window.push(5 + SECOND, -60_000);
    assert_eq!(window.max(), -1_000);
    window.push(6 + SECOND, -70_000);
    assert_eq!(window.max(), -60_000);
}

#[test]
fn sample_captured_before_the_oldest_evicts_nothing() {
    let mut window = TimeWindow::new(100);
    window.push(1_000, -20_000);
    window.push(500, -30_000);
    assert_eq!(window.max(), -20_000);
    window.push(700, -40_000);
    assert_eq!(window.max(), -20_000);
    window.push(1_100, -45_000);
    assert_eq!(window.max(), -20_000);
    window.push(1_101, -50_000);
    assert_eq!(window.max(), -45_000);
}

#[test]
fn equal_levels_survive_one_eviction() {
    let mut window = TimeWindow::new(10);
    window.push(0, -7_000);
    window.push(5, -7_000);
    window.push(11, -9_000);
    assert_eq!(window.max(), -7_000);
    window.push(16, -9_500);
    assert_eq!(window.max(), -9_000);
}

#[test]
fn levels_outside_the_nominal_range_are_ordered_too() {
    let mut window = TimeWindow::new(10);
    window.push(0, i32::MIN);
    assert_eq!(window.max(), i32::MIN);
    window.push(1, i32::MAX);
    assert_eq!(window.max(), i32::MAX);
    window.push(12, -100_000);
    assert_eq!(window.max(), -100_000);
}

#[test]
fn timestamps_at_the_end_of_the_clock() {
    let mut window = TimeWindow::new(u64::MAX);
    window.push(0, -3_000);
    window.push(u64::MAX, -4_000);
    assert_eq!(window.max(), -3_000);
    let mut narrow = TimeWindow::new(u64::MAX - 1);
    narrow.push(0, -3_000);
    narrow.push(u64::MAX, -4_000);
    assert_eq!(narrow.max(), -4_000);
}

/// The loudest level within `retention` of the newest of `samples`, where
/// the samples are in capture order.
fn loudest_recent(samples: &[(u64, i32)], retention: u64) -> i32 {
    let newest = samples[samples.len() - 1].0;
    let mut loudest = i32::MIN;
    for (time, db) in samples {
        if newest - time <= retention && *db > loudest {
            loudest = *db;
        }
    }
    loudest
}

#[test]
fn window_agrees_with_a_scan_of_the_recent_samples() {
    let retention = 37;
    let mut window = TimeWindow::new(retention);
    let mut pushed: Vec<(u64, i32)> = Vec::new();
    let mut time: u64 = 0;
    let mut seed: u64 = 12_345;
    for _ in 0..5_000 {
        seed = seed.wrapping_mul(6_364_136_223_846_793_005).wrapping_add(1_442_695_040_888_963_407);
        time += (seed >> 60) % 9;
        let db = -(((seed >> 33) % 96_001) as i32);
        window.push(time, db);
        pushed.push((time, db));
        assert_eq!(window.max(), loudest_recent(&pushed, retention));
    }
}
