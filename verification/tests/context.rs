use autograd::caps::{AdapterReport, BackendKind, DeviceKind, GpuCapabilities, GpuVendor};
use autograd::context::{
    fused_workgroups, gelu_route, numel_from, DispatchPlan, GeluRoute, GpuContext, GpuError, TensorDtype,
    ACT_GELU, ACT_IDENTITY, ACT_RELU, ACT_SILU, MAX_WORKGROUPS_PER_DIM,
};

fn report(vendor_id: u32, invocations: u32, smem: u32) -> AdapterReport {
    AdapterReport {
        vendor_id,
        backend: BackendKind::Vulkan,
        device_name: "dev".to_string(),
        device_type: DeviceKind::DiscreteGpu,
        subgroup: false,
        subgroup_barrier: false,
        shader_f16: false,
        shader_f64: false,
        timestamp_query: false,
        timestamp_query_inside_passes: false,
        timestamp_query_inside_encoders: false,
        max_compute_workgroup_size_x: 256,
        max_compute_workgroup_size_y: 256,
        max_compute_workgroup_size_z: 64,
        max_compute_invocations_per_workgroup: invocations,
        max_compute_workgroup_storage_size: smem,
        max_storage_buffer_binding_size: 1 << 28,
        max_bind_groups: 4,
    }
}

fn ctx() -> GpuContext {
    GpuContext::new(GpuCapabilities::from_report(report(0x10DE, 1024, 32768)), 4)
}

#[test]
fn query_slots_wrap_around_the_pool() {
    let mut c = ctx();
    assert_eq!(c.next_query_index(), (0, 1));
    assert_eq!(c.next_query_index(), (2, 3));
    assert_eq!(c.next_query_index(), (4, 5));
    assert_eq!(c.next_query_index(), (6, 7));
    assert_eq!(c.next_query_index(), (0, 1));
}

#[test]
fn workgroup_limits() {
    let c = ctx();
    assert_eq!(c.checked_workgroups((0, 0, 0)), Some((1, 1, 1)));
    assert_eq!(c.checked_workgroups((65535, 2, 3)), Some((65535, 2, 3)));
    assert_eq!(c.checked_workgroups((65536, 1, 1)), None);
    assert_eq!(MAX_WORKGROUPS_PER_DIM, 65535);
}

#[test]
fn single_dispatch_when_small() {
    let c = ctx();
    match c.dispatch_1d_chunked(1000, 256, 4) {
        DispatchPlan::Single { groups } => assert_eq!(groups, 4),
        DispatchPlan::Chunked(_) => panic!(),
    }
    match c.dispatch_1d_chunked(5, 0, 4) {
        DispatchPlan::Single { groups } => assert_eq!(groups, 5),
        DispatchPlan::Chunked(_) => panic!(),
    }
}

#[test]
fn chunked_dispatch_covers_everything() {
    let c = ctx();
    let numel: u32 = 65535 * 256 * 2 + 1000;
    match c.dispatch_1d_chunked(numel, 256, 4) {
        DispatchPlan::Chunked(chunks) => {
            assert_eq!(chunks.len(), 3);
            let per = 65535u32 * 256;
            assert_eq!(chunks[0].elems, per);
            assert_eq!(chunks[0].groups, 65535);
            assert_eq!(chunks[0].byte_offset, 0);
            assert_eq!(chunks[0].byte_size, per as u64 * 4);
            assert_eq!(chunks[1].byte_offset, per as u64 * 4);
            assert_eq!(chunks[2].elems, 1000);
            assert_eq!(chunks[2].groups, 4);
            assert_eq!(chunks[2].byte_offset, 2 * per as u64 * 4);
            let total: u64 = chunks.iter().map(|c| c.elems as u64).sum();
            assert_eq!(total, numel as u64);
        }
        DispatchPlan::Single { .. } => panic!(),
    }
}

#[test]
fn fill_zeros_needs_pipeline() {
    let mut c = ctx();
    assert!(matches!(c.fill_zeros_batched(&vec![]), Ok(v) if v.is_empty()));
    match c.fill_zeros_batched(&vec![10]) {
        Err(GpuError::Pipeline(m)) => assert_eq!(m, "fill_zero not compiled"),
        _ => panic!(),
    }
    c.compile_pipeline_cached("fill_zero");
    assert_eq!(c.fill_zeros_batched(&vec![10, 256, 257, 0]).unwrap(), vec![1, 1, 2, 0]);
}

#[test]
fn reduce_sum_batch_counts_additions() {
    let c = ctx();
    match c.reduce_sum_batch(0) {
        Err(GpuError::Unsupported(m)) => assert_eq!(m, "reduce_sum_batch: empty batch"),
        _ => panic!(),
    }
    assert_eq!(c.reduce_sum_batch(1).unwrap(), 0);
    assert_eq!(c.reduce_sum_batch(5).unwrap(), 4);
}

#[test]
fn gelu_routing() {
    assert_eq!(gelu_route(64, 64, 64, false), GeluRoute::MatmulThenGelu);
    assert_eq!(gelu_route(512, 64, 64, false), GeluRoute::Fused);
    assert_eq!(gelu_route(64, 1024, 64, false), GeluRoute::Fused);
    assert_eq!(gelu_route(64, 64, 1025, false), GeluRoute::MatmulThenGelu);
    assert_eq!(gelu_route(4096, 4096, 4096, true), GeluRoute::Fused);
}

#[test]
fn fused_matmul_checks_shapes_then_pipeline() {
    let mut c = ctx();
    match c.fused_matmul_bias(&[2, 3], &[4, 5]) {
        Err(GpuError::MatMulShape(a, b)) => {
            assert_eq!(a, vec![2, 3]);
            assert_eq!(b, vec![4, 5]);
        }
        _ => panic!(),
    }
    match c.fused_matmul_bias(&[2, 3], &[3, 5]) {
        Err(GpuError::Pipeline(m)) => assert_eq!(m, "fused_matmul_bias not compiled"),
        _ => panic!(),
    }
    c.compile_pipeline_cached("fused_matmul_bias");
    let p = c.fused_matmul_bias(&[2, 3], &[3, 5]).unwrap();
    assert_eq!((p.m, p.k, p.n, p.act), (2, 3, 5, ACT_IDENTITY));
    assert_eq!(p.out_shape, vec![2, 5]);
    assert_eq!(p.out_bytes, 40);
    assert_eq!(c.fused_matmul_bias_silu(&[2, 3], &[3, 5]).unwrap().act, ACT_SILU);
    assert_eq!(c.fused_matmul_bias_relu(&[2, 3], &[3, 5]).unwrap().act, ACT_RELU);
    assert_eq!(c.fused_matmul_bias_gelu_profiled_forced(&[2, 3], &[3, 5]).unwrap().act, ACT_GELU);
    let (route, p) = c.fused_matmul_bias_gelu(&[2, 3], &[3, 5]).unwrap();
    assert_eq!(route, GeluRoute::MatmulThenGelu);
    assert_eq!(p.act, ACT_IDENTITY);
    let (route, p) = c.fused_matmul_bias_gelu(&[600, 8], &[8, 8]).unwrap();
    assert_eq!(route, GeluRoute::Fused);
    assert_eq!(p.act, ACT_GELU);
    let (route, _) = c.fused_matmul_bias_gelu_profiled(&[2, 3], &[3, 5]).unwrap();
    assert_eq!(route, GeluRoute::MatmulThenGelu);
    let (route, p) = c.fused_matmul_bias_gelu_forced(&[2, 3], &[3, 5]).unwrap();
    assert_eq!(route, GeluRoute::Fused);
    assert_eq!(p.act, ACT_GELU);
    assert!(matches!(c.fused_matmul_bias(&[2, 3, 1], &[3, 5]), Err(GpuError::MatMulShape(_, _))));
    assert_eq!(fused_workgroups(2, 5), 1);
    assert_eq!(fused_workgroups(100, 100), 40);
}

#[test]
fn random_projection_shape() {
    let c = ctx();
    assert_eq!(c.random_projection(&[64, 32], 8), vec![32, 8]);
}

#[test]
fn slice_rows() {
    let c = ctx();
    let plan = c.slice_tensor(&[10, 4, 3], TensorDtype::F32, 2, 5);
    assert_eq!(plan.byte_offset, 2 * 12 * 4);
    assert_eq!(plan.byte_size, 5 * 12 * 4);
    assert_eq!(plan.shape, vec![5, 4, 3]);
    let plan = c.slice_tensor(&[7], TensorDtype::F16, 1, 2);
    assert_eq!(plan.byte_offset, 2);
    assert_eq!(plan.byte_size, 4);
    assert_eq!(numel_from(&[2, 3, 4], 1), 12);
    assert_eq!(numel_from(&[2, 3, 4], 3), 1);
}

#[test]
fn capabilities_from_report() {
    let caps = GpuCapabilities::from_report(report(0x10DE, 1024, 32768));
    assert_eq!(caps.vendor, GpuVendor::Nvidia);
    assert_eq!(caps.max_workgroup_size, 256 * 256 * 64);
    assert_eq!(caps.dedicated_video_memory, 8 << 30);
    assert_eq!(caps.shared_system_memory, 0);
    assert_eq!(caps.optimal_tile_size(), 16);
    assert_eq!(caps.optimal_fused_tile_size(), 32);
    assert_eq!(caps.optimal_workgroup_size(16), 256);
    assert_eq!(caps.optimal_workgroup_size(64), 1024);
    let small = GpuCapabilities::from_report(report(0x1002, 200, 4096));
    assert_eq!(small.vendor, GpuVendor::Amd);
    assert_eq!(small.optimal_tile_size(), 8);
    assert_eq!(small.optimal_fused_tile_size(), 8);
    let tiny = GpuCapabilities::from_report(report(0x10DE, 200, 1 << 20));
    assert_eq!(tiny.optimal_tile_size(), 14);
    assert_eq!(tiny.optimal_fused_tile_size(), 8);
    let mid = GpuCapabilities::from_report(report(0x8086, 256, 2048));
    assert_eq!(mid.optimal_fused_tile_size(), 16);
    assert_eq!(GpuVendor::from_pci_vendor(0x1022), GpuVendor::Amd);
    assert_eq!(GpuVendor::from_pci_vendor(0x106B).name(), "Apple");
    assert_eq!(GpuVendor::from_pci_vendor(0x8086).name(), "Intel");
    assert_eq!(GpuVendor::from_pci_vendor(0).name(), "Unknown");
}

#[test]
fn video_memory_by_device_type() {
    let mut r = report(0x10DE, 1024, 32768);
    r.max_storage_buffer_binding_size = 2 << 30;
    assert_eq!(GpuCapabilities::from_report(r).dedicated_video_memory, 2 << 30);
    let mut r = report(0x8086, 1024, 32768);
    r.device_type = DeviceKind::IntegratedGpu;
    let caps = GpuCapabilities::from_report(r);
    assert_eq!(caps.dedicated_video_memory, 0);
    assert_eq!(caps.shared_system_memory, 1 << 28);
}

#[test]
fn online_softmax_plan() {
    let mut c = ctx();
    match c.fused_softmax_online(&[5]) {
        Err(GpuError::ShapeMismatch(m)) => assert_eq!(m, "softmax needs ≥2D tensor"),
        _ => panic!(),
    }
    match c.fused_softmax_online(&[2, 3, 5]) {
        Err(GpuError::Pipeline(m)) => assert_eq!(m, "fused_online_softmax not compiled"),
        _ => panic!(),
    }
    c.compile_pipeline_cached("fused_online_softmax");
    let p = c.fused_softmax_online(&[2, 3, 5]).unwrap();
    assert_eq!(p.cfg, [6, 5, 0, 0]);
    assert_eq!(p.out_bytes, 120);
}

#[test]
fn forced_gelu_plans_the_same_output_as_routed() {
    let mut c = ctx();
    assert!(c.fused_matmul_bias_gelu(&[2, 3], &[3, 5]).is_err());
    assert!(c.fused_matmul_bias_gelu_forced(&[2, 3], &[3, 5]).is_err());
    c.compile_pipeline_cached("fused_matmul_bias");
    for (a, b) in [([2usize, 3usize], [3usize, 5usize]), ([600, 700], [700, 800])] {
        let (rt, p) = c.fused_matmul_bias_gelu(&a, &b).unwrap();
        let (ft, q) = c.fused_matmul_bias_gelu_forced(&a, &b).unwrap();
        assert_eq!(ft, GeluRoute::Fused);
        assert_eq!((p.m, p.k, p.n, p.out_bytes), (q.m, q.k, q.n, q.out_bytes));
        assert_eq!(p.out_shape, q.out_shape);
        if rt == GeluRoute::Fused {
            assert_eq!(p.act, q.act);
        }
    }
    assert!(matches!(c.fused_matmul_bias_gelu(&[2, 3], &[4, 5]), Err(GpuError::MatMulShape(_, _))));
    assert!(matches!(c.fused_matmul_bias_gelu_forced(&[2, 3], &[4, 5]), Err(GpuError::MatMulShape(_, _))));
}
