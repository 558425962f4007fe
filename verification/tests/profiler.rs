use autograd::profiler::{GpuKernelStats, GpuProfiler, ProfileReport, ProfileScope, DURATION_MAX_NANOS};

#[test]
fn kernel_stats_default() {
    let s = GpuKernelStats::default();
    assert_eq!(s.calls, 0);
    assert_eq!(s.total_time, 0);
    assert_eq!(s.min_time, DURATION_MAX_NANOS);
    assert_eq!(s.max_time, 0);
    assert_eq!(DURATION_MAX_NANOS, std::time::Duration::MAX.as_nanos());
}

#[test]
fn begin_end_records_elapsed() {
    let mut p = GpuProfiler::new(true);
    p.begin_kernel("matmul", 100);
    p.end_kernel("matmul", 350);
    p.begin_kernel("matmul", 400);
    p.end_kernel("matmul", 450);
    p.begin_kernel("add", 0);
    p.end_kernel("add", 1000);
    match p.report() {
        ProfileReport::Enabled { kernels, phases } => {
            assert!(phases.is_empty());
            assert_eq!(kernels.len(), 2);
            assert_eq!(kernels[0].0, "add");
            assert_eq!(kernels[0].1.calls, 1);
            assert_eq!(kernels[0].1.total_time, 1000);
            assert_eq!(kernels[1].0, "matmul");
            let m = kernels[1].1;
            assert_eq!(m.calls, 2);
            assert_eq!(m.total_time, 300);
            assert_eq!(m.min_time, 50);
            assert_eq!(m.max_time, 250);
        }
        ProfileReport::Disabled => panic!("enabled profiler reported nothing"),
    }
}

#[test]
fn disabled_profiler_records_nothing() {
    let mut p = GpuProfiler::new(false);
    p.begin_kernel("k", 0);
    p.end_kernel("k", 10);
    p.begin_phase("ph", 0);
    p.end_phase("ph", 5);
    assert!(matches!(p.report(), ProfileReport::Disabled));
    p.set_enabled(true);
    match p.report() {
        ProfileReport::Enabled { kernels, phases } => {
            assert!(kernels.is_empty());
            assert!(phases.is_empty());
        }
        ProfileReport::Disabled => panic!(),
    }
}

#[test]
fn phases_logged_in_order() {
    let mut p = GpuProfiler::new(true);
    p.begin_phase("forward", 10);
    p.begin_phase("backward", 20);
    p.end_phase("backward", 25);
    p.end_phase("forward", 40);
    p.end_phase("missing", 50);
    match p.report() {
        ProfileReport::Enabled { phases, .. } => {
            assert_eq!(phases, vec![("backward".to_string(), 5), ("forward".to_string(), 30)]);
        }
        ProfileReport::Disabled => panic!(),
    }
}

#[test]
fn clock_going_back_counts_zero() {
    let mut p = GpuProfiler::new(true);
    p.begin_kernel("k", 100);
    p.end_kernel("k", 50);
    match p.report() {
        ProfileReport::Enabled { kernels, .. } => {
            assert_eq!(kernels[0].1.total_time, 0);
            assert_eq!(kernels[0].1.min_time, 0);
        }
        ProfileReport::Disabled => panic!(),
    }
}

#[test]
fn clear_forgets_everything() {
    let mut p = GpuProfiler::new(true);
    p.begin_kernel("k", 0);
    p.end_kernel("k", 1);
    p.begin_kernel("open", 0);
    p.clear();
    p.end_kernel("open", 10);
    match p.report() {
        ProfileReport::Enabled { kernels, phases } => {
            assert!(kernels.is_empty());
            assert!(phases.is_empty());
        }
        ProfileReport::Disabled => panic!(),
    }
    let _scope = ProfileScope::Kernel("x".to_string());
}

#[test]
fn kernel_room_is_checked_before_closing() {
    let mut p = GpuProfiler::new(true);
    assert!(p.kernel_has_room_for("matmul"));
    p.begin_kernel("matmul", 10);
    p.end_kernel("matmul", 25);
    assert!(p.kernel_has_room_for("matmul"));
}
