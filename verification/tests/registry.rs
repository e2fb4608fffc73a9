use loudness_meter::level::MIN_DB;
use loudness_meter::registry::Registry;

const MILLISECOND: u64 = 1_000_000;

#[test]
fn registry_without_windows_has_an_empty_snapshot() {
    let mut registry = Registry::new(&[]);
    assert_eq!(registry.len(), 0);
    registry.push_all(0, -1_000);
    assert_eq!(registry.snapshot(), vec![]);
}

#[test]
fn fresh_registry_reports_the_floor_everywhere() {
    let registry = Registry::new(&[200 * MILLISECOND, 1_000 * MILLISECOND, 3_000 * MILLISECOND]);
    assert_eq!(registry.len(), 3);
    assert_eq!(
        registry.snapshot(),
        vec![
            (200 * MILLISECOND, MIN_DB),
            (1_000 * MILLISECOND, MIN_DB),
            (3_000 * MILLISECOND, MIN_DB)
        ]
    );
}

#[test]
fn snapshot_keeps_the_order_of_construction() {
    let mut registry = Registry::new(&[30, 10, 20, 10]);
    registry.push_all(0, -7_000);
    assert_eq!(registry.snapshot(), vec![(30, -7_000), (10, -7_000), (20, -7_000), (10, -7_000)]);
}

#[test]
fn two_windows_end_to_end() {
    let mut registry = Registry::new(&[200 * MILLISECOND, 1_000 * MILLISECOND]);
    registry.push_all(0, -40_000);
    registry.push_all(100 * MILLISECOND, -5_000);
    registry.push_all(300 * MILLISECOND, -30_000);
    assert_eq!(
        registry.snapshot(),
        vec![(200 * MILLISECOND, -5_000), (1_000 * MILLISECOND, -5_000)]
    );
}

#[test]
fn one_window_end_to_end() {
    let mut registry = Registry::new(&[1_000 * MILLISECOND]);
    registry.push_all(0, -10_000);
    assert_eq!(registry.snapshot(), vec![(1_000 * MILLISECOND, -10_000)]);
}

#[test]
fn every_window_sees_every_push() {
    let mut registry = Registry::new(&[10, 100, 1_000]);
    registry.push_all(0, -1_000);
    assert_eq!(registry.snapshot(), vec![(10, -1_000), (100, -1_000), (1_000, -1_000)]);
    registry.push_all(50, -2_000);
    assert_eq!(registry.snapshot(), vec![(10, -2_000), (100, -1_000), (1_000, -1_000)]);
    registry.push_all(500, -3_000);
    assert_eq!(registry.snapshot(), vec![(10, -3_000), (100, -3_000), (1_000, -1_000)]);
    registry.push_all(5_000, -4_000);
    assert_eq!(registry.snapshot(), vec![(10, -4_000), (100, -4_000), (1_000, -4_000)]);
}

#[test]
fn snapshot_does_not_change_the_registry() {
    let mut registry = Registry::new(&[100]);
    registry.push_all(7, -9_000);
    let first = registry.snapshot();
    let second = registry.snapshot();
    assert_eq!(first, second);
    assert_eq!(registry.len(), 1);
}
