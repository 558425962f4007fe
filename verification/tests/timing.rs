use autograd::caps::{AdapterReport, BackendKind, DeviceKind, GpuCapabilities};
use autograd::context::{GpuContext, GpuError};
use autograd::timing::{query_buffer_size, read_timestamps, timestamp_ticks, QUERY_SIZE};

fn ctx() -> GpuContext {
    let rep = AdapterReport {
        vendor_id: 0x106B,
        backend: BackendKind::Metal,
        device_name: "m".to_string(),
        device_type: DeviceKind::IntegratedGpu,
        subgroup: true,
        subgroup_barrier: true,
        shader_f16: true,
        shader_f64: false,
        timestamp_query: true,
        timestamp_query_inside_passes: true,
        timestamp_query_inside_encoders: true,
        max_compute_workgroup_size_x: 1024,
        max_compute_workgroup_size_y: 1024,
        max_compute_workgroup_size_z: 64,
        max_compute_invocations_per_workgroup: 1024,
        max_compute_workgroup_storage_size: 32768,
        max_storage_buffer_binding_size: 1 << 30,
        max_bind_groups: 4,
    };
    GpuContext::new(GpuCapabilities::from_report(rep), 8)
}

#[test]
fn query_sizes() {
    assert_eq!(QUERY_SIZE, wgpu::QUERY_SIZE as u64);
    assert_eq!(query_buffer_size(2), 256);
    assert_eq!(query_buffer_size(0), 0);
    assert_eq!(query_buffer_size(32), 256);
    assert_eq!(query_buffer_size(33), 512);
}

#[test]
fn timestamps_are_little_endian() {
    assert_eq!(read_timestamps(&[0u8; 15]), None);
    let mut bytes = Vec::new();
    bytes.extend_from_slice(&0x0102_0304_0506_0708u64.to_le_bytes());
    bytes.extend_from_slice(&42u64.to_le_bytes());
    bytes.push(9);
    assert_eq!(read_timestamps(&bytes), Some((0x0102_0304_0506_0708, 42)));
}

#[test]
fn timed_matmul_checks() {
    let mut c = ctx();
    match c.matmul_batch_with_timestamp(&[2, 3, 4], &[3, 4], 16) {
        Err(GpuError::ShapeMismatch(m)) => assert_eq!(m, "Matmul requires 2D tensors"),
        _ => panic!(),
    }
    match c.matmul_batch_with_timestamp(&[64, 32], &[31, 8], 16) {
        Err(GpuError::ShapeMismatch(m)) => assert_eq!(m, "Matmul dimension mismatch: 64x32 @ 31x8"),
        _ => panic!(),
    }
    match c.matmul_batch_with_timestamp(&[64, 32], &[32, 8], 16) {
        Err(GpuError::Pipeline(m)) => assert_eq!(m, "matmul_tiled not compiled"),
        _ => panic!(),
    }
    c.compile_pipeline_cached("matmul_tiled");
    let p = c.matmul_batch_with_timestamp(&[65, 32], &[32, 8], 16).unwrap();
    assert_eq!(p.cfg, [65, 32, 8, 0]);
    assert_eq!(p.out_bytes, 65 * 8 * 4);
    assert_eq!(p.groups, (5, 1, 1));
    assert_eq!(p.out_shape, vec![65, 8]);
}

#[test]
fn timestamp_ticks_never_go_negative() {
    assert_eq!(timestamp_ticks(100, 250), 150);
    assert_eq!(timestamp_ticks(7, 7), 0);
    assert_eq!(timestamp_ticks(250, 100), 0);
}
