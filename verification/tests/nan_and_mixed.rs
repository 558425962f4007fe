use autograd::context::GpuError;
use autograd::mixed::{
    dispatch_f16_to_f32, dispatch_f32_to_f16, dispatch_scale_inplace, dispatch_unscale_inplace, elementwise_workgroups,
    GpuDType, LossScaleSchedule, ScaleAction, DEFAULT_GROWTH_INTERVAL,
};
use autograd::nan_check::{flag_reports_nan, has_nan_or_inf_gpu, GpuNanDetector};

#[test]
fn nan_plan_small_tensor() {
    assert!(has_nan_or_inf_gpu(0).is_none());
    let p = has_nan_or_inf_gpu(1).unwrap();
    assert_eq!(p.flag_workgroups, 1);
    assert_eq!(p.flag_bytes, 4);
    assert!(p.rounds.is_empty());
    let p = has_nan_or_inf_gpu(10).unwrap();
    assert_eq!(p.flag_workgroups, 1);
    assert_eq!(p.flag_bytes, 4);
    assert!(p.rounds.is_empty());
}

#[test]
fn nan_plan_reduction_tree() {
    let p = has_nan_or_inf_gpu(1_000_000).unwrap();
    assert_eq!(p.flag_workgroups, 15625);
    assert_eq!(p.flag_bytes, 62500);
    let r: Vec<(u32, u32, u64)> = p.rounds.iter().map(|r| (r.remaining, r.groups, r.out_bytes)).collect();
    assert_eq!(r, vec![(15625, 245, 980), (245, 4, 16), (4, 1, 4)]);
    let p = has_nan_or_inf_gpu(65).unwrap();
    assert_eq!(p.flag_workgroups, 2);
    assert_eq!(p.rounds.len(), 1);
    assert_eq!(p.rounds[0].groups, 1);
}

#[test]
fn detector_records_and_aborts() {
    let mut d = GpuNanDetector::new(true, false);
    assert!(d.should_check());
    assert_eq!(d.check(false, "x").unwrap(), false);
    assert!(!d.was_nan_detected());
    assert_eq!(d.check(true, "x").unwrap(), true);
    assert!(d.was_nan_detected());
    d.reset();
    assert!(!d.was_nan_detected());
    let mut a = GpuNanDetector::new(true, true);
    match a.check(true, "logits") {
        Err(GpuError::Unsupported(m)) => assert_eq!(m, "GPU NaN detected in 'logits' — aborting"),
        _ => panic!(),
    }
    assert!(a.was_nan_detected());
    assert!(!GpuNanDetector::new(false, true).should_check());
    assert!(flag_reports_nan(1));
    assert!(!flag_reports_nan(0));
}

#[test]
fn dtype_sizes() {
    assert_eq!(GpuDType::F32.bytes_per_element(), 4);
    assert_eq!(GpuDType::BF16.bytes_per_element(), 4);
    assert_eq!(GpuDType::F16.bytes_per_element(), 2);
    assert_eq!(GpuDType::F16.buffer_size(1000), 2000);
    assert_eq!(GpuDType::F32.buffer_size(0), 0);
    assert!(GpuDType::F16.is_half());
    assert!(GpuDType::BF16.is_half());
    assert!(!GpuDType::F32.is_half());
    assert_eq!(GpuDType::default(), GpuDType::F32);
    assert_eq!(elementwise_workgroups(0), 0);
    assert_eq!(elementwise_workgroups(257), 2);
}

#[test]
fn loss_scale_schedule() {
    let mut s = LossScaleSchedule::new();
    for _ in 0..DEFAULT_GROWTH_INTERVAL - 1 {
        assert_eq!(s.record_success(), ScaleAction::Keep);
    }
    assert_eq!(s.record_success(), ScaleAction::Grow);
    assert_eq!(s.record_success(), ScaleAction::Keep);
    assert_eq!(s.record_overflow(), ScaleAction::Backoff);
    assert_eq!(s.overflow_count(), 1);
    assert_eq!(s.total_steps(), DEFAULT_GROWTH_INTERVAL + 2);
    for _ in 0..DEFAULT_GROWTH_INTERVAL - 1 {
        assert_eq!(s.record_success(), ScaleAction::Keep);
    }
    assert_eq!(s.record_success(), ScaleAction::Grow);
}

#[test]
fn conversion_plans() {
    let p = dispatch_f32_to_f16(1000);
    assert_eq!((p.out_bytes, p.groups), (2000, 4));
    let p = dispatch_f16_to_f32(1000);
    assert_eq!((p.out_bytes, p.groups), (4000, 4));
    assert_eq!(dispatch_scale_inplace(256), 1);
    assert_eq!(dispatch_unscale_inplace(513), 3);
}

#[test]
fn disabled_detector_reports_nothing() {
    let mut d = GpuNanDetector::new(false, true);
    assert_eq!(d.check(true, "x").unwrap(), false);
    assert!(!d.was_nan_detected());
}
