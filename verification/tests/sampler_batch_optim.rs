use autograd::batch::{BatchOp, GpuCommandBatch};
use autograd::caps::{AdapterReport, BackendKind, DeviceKind, GpuCapabilities};
use autograd::context::{GpuContext, GpuError};
use autograd::optim::GpuAdam;
use autograd::sampler::gpu_sample;

fn ctx() -> GpuContext {
    let rep = AdapterReport {
        vendor_id: 0x8086,
        backend: BackendKind::Gl,
        device_name: "igpu".to_string(),
        device_type: DeviceKind::IntegratedGpu,
        subgroup: false,
        subgroup_barrier: false,
        shader_f16: false,
        shader_f64: false,
        timestamp_query: false,
        timestamp_query_inside_passes: false,
        timestamp_query_inside_encoders: false,
        max_compute_workgroup_size_x: 256,
        max_compute_workgroup_size_y: 256,
        max_compute_workgroup_size_z: 64,
        max_compute_invocations_per_workgroup: 256,
        max_compute_workgroup_storage_size: 16384,
        max_storage_buffer_binding_size: 1 << 27,
        max_bind_groups: 4,
    };
    GpuContext::new(GpuCapabilities::from_report(rep), 16)
}

#[test]
fn sample_plan_with_all_passes() {
    let seed: u64 = 0x1234_5678_9abc_def0;
    let p = gpu_sample(&[2, 50000], true, 40, seed);
    assert_eq!(p.work_bytes, 400_000);
    assert_eq!(p.temperature_groups, Some(391));
    assert_eq!(p.top_k_cfg, Some([50000, 40]));
    assert_eq!(p.row_groups, 2);
    assert_eq!(p.seed_cfg, [50000, 0x9abc_def0, 0x1234_5678]);
    assert_eq!(p.out_bytes, 8);
    assert_eq!(p.out_shape, vec![2]);
}

#[test]
fn sample_plan_skips_passes() {
    let p = gpu_sample(&[1, 10], false, 0, 7);
    assert_eq!(p.temperature_groups, None);
    assert_eq!(p.top_k_cfg, None);
    assert_eq!(p.seed_cfg, [10, 7, 0]);
    let p = gpu_sample(&[1, 10], false, 10, 7);
    assert_eq!(p.top_k_cfg, None);
    let p = gpu_sample(&[1, 10], false, 9, u64::MAX);
    assert_eq!(p.top_k_cfg, Some([10, 9]));
    assert_eq!(p.seed_cfg, [10, u32::MAX, u32::MAX]);
}

#[test]
fn command_batch_records_in_order() {
    let mut b = GpuCommandBatch::new();
    assert_eq!(b.op_count(), 0);
    b.dispatch((4, 1, 1));
    b.copy_buffer(10, 10);
    b.copy_buffer(10, 11);
    b.copy_raw_buffer(64);
    assert_eq!(b.op_count(), 3);
    assert_eq!(b.submit(), 3);
    let c = ctx();
    let mut b = GpuCommandBatch::new();
    match c.batch_enqueue_fill_zero(&mut b, 1000) {
        Err(GpuError::Pipeline(m)) => assert_eq!(m, "fill_zero not compiled"),
        _ => panic!(),
    }
    assert_eq!(b.op_count(), 0);
    let mut c = c;
    c.compile_pipeline_cached("fill_zero");
    c.batch_enqueue_fill_zero(&mut b, 1000).unwrap();
    assert_eq!(b.op_count(), 1);
    let _ = BatchOp::Dispatch { x: 4, y: 1, z: 1 };
}

#[test]
fn adam_step_dispatches() {
    let mut c = ctx();
    let mut adam = GpuAdam::new();
    adam.begin_step();
    assert_eq!(adam.step, 1);
    match adam.step_dispatches(&c, &[10]) {
        Err(GpuError::Pipeline(m)) => assert_eq!(m, "adam_step not compiled"),
        _ => panic!(),
    }
    c.compile_pipeline_cached("adam_step");
    assert_eq!(adam.step_dispatches(&c, &[300, 0, 256, 1]).unwrap(), vec![(0, 2), (2, 1), (3, 1)]);
    adam.begin_step();
    assert_eq!(adam.step, 2);
}

#[test]
fn adam_step_counts_even_without_pipeline() {
    let mut c = ctx();
    let mut adam = GpuAdam::new();
    assert!(matches!(adam.step(&c, &[4]), Err(GpuError::Pipeline(_))));
    assert_eq!(adam.step, 1);
    c.compile_pipeline_cached("adam_step");
    assert_eq!(adam.step(&c, &[0, 513]).unwrap(), vec![(1, 3)]);
    assert_eq!(adam.step, 2);
}
