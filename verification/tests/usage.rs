use scada::counter::CpuTime;
use scada::usage::{calculate_cpu_usage, Percantage};

fn snap(total: usize, work: usize) -> CpuTime {
    CpuTime::from_times(total, work).expect("consistent snapshot")
}

#[test]
fn usage_of_a_busy_interval_is_sixty() {
    let prev = snap(1000, 500);
    let curr = snap(1200, 620);
    assert_eq!(calculate_cpu_usage(&prev, &curr), Percantage(60));
}

#[test]
fn usage_without_elapsed_time_is_zero() {
    let prev = snap(500, 100);
    let curr = snap(500, 100);
    assert_eq!(calculate_cpu_usage(&prev, &curr), Percantage(0));
}

#[test]
fn usage_of_identical_snapshot_is_zero() {
    let prev = snap(77, 33);
    assert_eq!(calculate_cpu_usage(&prev, &prev).0, 0);
}

#[test]
fn usage_after_total_rollback_is_zero() {
    let prev = snap(9000, 4000);
    let curr = snap(120, 60);
    assert_eq!(calculate_cpu_usage(&prev, &curr).0, 0);
}

#[test]
fn usage_after_work_rollback_is_zero() {
    let prev = snap(1000, 900);
    let curr = snap(2000, 100);
    assert_eq!(calculate_cpu_usage(&prev, &curr).0, 0);
}

#[test]
fn usage_rounds_halves_upward() {
    // 1 of 8 is 12.5 percent, 1 of 200 is 0.5 percent
    assert_eq!(calculate_cpu_usage(&snap(0, 0), &snap(8, 1)).0, 13);
    assert_eq!(calculate_cpu_usage(&snap(0, 0), &snap(200, 1)).0, 1);
    // 1 of 3 is 33.3 percent, 2 of 3 is 66.7 percent
    assert_eq!(calculate_cpu_usage(&snap(0, 0), &snap(3, 1)).0, 33);
    assert_eq!(calculate_cpu_usage(&snap(0, 0), &snap(3, 2)).0, 67);
    // 1 of 201 is just under half a percent
    assert_eq!(calculate_cpu_usage(&snap(0, 0), &snap(201, 1)).0, 0);
}

#[test]
fn usage_is_capped_at_one_hundred() {
    // the working time grew by 50 while the total grew by 1
    let prev = snap(100, 0);
    let curr = snap(101, 50);
    assert_eq!(calculate_cpu_usage(&prev, &curr).0, 100);
}

#[test]
fn usage_of_fully_busy_and_fully_idle_intervals() {
    assert_eq!(calculate_cpu_usage(&snap(10, 10), &snap(20, 20)).0, 100);
    assert_eq!(calculate_cpu_usage(&snap(10, 10), &snap(20, 10)).0, 0);
}

#[test]
fn usage_stays_in_range_for_the_largest_counters() {
    let prev = snap(0, 0);
    let curr = snap(usize::MAX, usize::MAX);
    assert_eq!(calculate_cpu_usage(&prev, &curr).0, 100);
    let half = snap(usize::MAX, usize::MAX / 2);
    assert_eq!(calculate_cpu_usage(&prev, &half).0, 50);
}

#[test]
fn usage_stays_in_range_over_a_grid_of_snapshots() {
    let points = [0usize, 1, 2, 3, 7, 50, 99, 100, 1000];
    for &pt in &points {
        for &pw in &points {
            for &ct in &points {
                for &cw in &points {
                    if pw <= pt && cw <= ct {
                        let u = calculate_cpu_usage(&snap(pt, pw), &snap(ct, cw));
                        assert!(u.0 <= 100);
                    }
                }
            }
        }
    }
}

#[test]
fn snapshot_rejects_work_beyond_total() {
    assert!(CpuTime::from_times(5, 6).is_none());
    let s = snap(6, 5);
    assert_eq!(s.total_time(), 6);
    assert_eq!(s.work_time(), 5);
}
