use ttop::cpu::utilization::{parse_proc_stat, usage_ticks, CpuTimes};

const PROC_STAT: &str = "cpu  10132153 290696 3084719 46828483 16683 0 25195 0 0 0\ncpu0 1393280 32966 572056 13343292 6130 0 17875 0 0 0\ncpu1 1335232 28612 521789 13287858 4720 0 3556 0 0 0\nintr 199292399 0 0\nctxt 123\n";

fn make_times(user: u64, nice: u64, system: u64, idle: u64, iowait: u64) -> CpuTimes {
    CpuTimes {
        user,
        nice,
        system,
        idle,
        iowait,
        irq: 0,
        softirq: 0,
        steal: 0,
    }
}

fn compute_usage(prev: &CpuTimes, curr: &CpuTimes) -> f64 {
    let (busy, total) = usage_ticks(prev, curr);
    if total == 0 {
        return 0.0;
    }
    (busy as f64 / total as f64) * 100.0
}

#[test]
fn cpu_times_total_sums_all_fields() {
    let t = CpuTimes {
        user: 10,
        nice: 20,
        system: 30,
        idle: 40,
        iowait: 5,
        irq: 3,
        softirq: 2,
        steal: 1,
    };
    assert_eq!(t.total(), 111);
}

#[test]
fn cpu_times_idle_total_sums_idle_and_iowait() {
    let t = make_times(100, 0, 50, 800, 50);
    assert_eq!(t.idle_total(), 850);
}

#[test]
fn compute_usage_fully_idle() {
    let prev = make_times(0, 0, 0, 0, 0);
    let curr = make_times(0, 0, 0, 1000, 0);
    assert!((compute_usage(&prev, &curr) - 0.0).abs() < 0.01);
}

#[test]
fn compute_usage_fully_busy() {
    let prev = make_times(0, 0, 0, 0, 0);
    let curr = make_times(1000, 0, 0, 0, 0);
    assert!((compute_usage(&prev, &curr) - 100.0).abs() < 0.01);
}

#[test]
fn compute_usage_half_busy() {
    let prev = make_times(0, 0, 0, 0, 0);
    let curr = make_times(500, 0, 0, 500, 0);
    assert!((compute_usage(&prev, &curr) - 50.0).abs() < 0.01);
}

#[test]
fn compute_usage_zero_delta_returns_zero() {
    let prev = make_times(100, 0, 0, 100, 0);
    let curr = make_times(100, 0, 0, 100, 0);
    assert_eq!(compute_usage(&prev, &curr), 0.0);
}

#[test]
fn compute_usage_mixed_workload() {
    let prev = make_times(0, 0, 0, 0, 0);
    let curr = make_times(300, 0, 100, 500, 100);
    assert!((compute_usage(&prev, &curr) - 40.0).abs() < 0.01);
}

#[test]
fn compute_usage_incremental_deltas() {
    let prev = make_times(1000, 0, 500, 8000, 500);
    let curr = make_times(1200, 0, 600, 8800, 600);
    assert!((compute_usage(&prev, &curr) - 25.0).abs() < 0.01);
}

#[test]
fn parse_proc_stat_returns_cores() {
    let cores = parse_proc_stat(PROC_STAT);
    assert!(!cores.is_empty(), "should detect at least one core");
}

#[test]
fn parse_proc_stat_cores_have_nonzero_totals() {
    let cores = parse_proc_stat(PROC_STAT);
    for (i, core) in cores.iter().enumerate() {
        assert!(core.total() > 0, "core {} should have nonzero total time", i);
    }
}

#[test]
fn proc_stat_skips_aggregate_and_other_lines() {
    let cores = parse_proc_stat(PROC_STAT);
    assert_eq!(cores.len(), 2);
    assert_eq!(cores[0], CpuTimes {
        user: 1393280,
        nice: 32966,
        system: 572056,
        idle: 13343292,
        iowait: 6130,
        irq: 0,
        softirq: 17875,
        steal: 0,
    });
    assert_eq!(cores[1].user, 1335232);
}

#[test]
fn proc_stat_bad_counters_read_as_zero_and_short_lines_are_dropped() {
    let cores = parse_proc_stat("cpu0 1 x 3 4 5 6 7 8\ncpu1 1 2 3\n");
    assert_eq!(cores.len(), 1);
    assert_eq!(cores[0].nice, 0);
    assert_eq!(cores[0].steal, 8);
}

#[test]
fn usage_ticks_counts_busy_and_total_deltas() {
    let prev = make_times(1000, 0, 500, 8000, 500);
    let curr = make_times(1200, 0, 600, 8800, 600);
    assert_eq!(usage_ticks(&prev, &curr), (300, 1200));
    assert_eq!(usage_ticks(&curr, &prev), (0, 0));
}
