use autograd::caps::{AdapterReport, BackendKind, DeviceKind, GpuCapabilities};
use autograd::context::GpuContext;
use autograd::kv_cache::{compile_gather_pages_pipeline, compile_kv_cache_pipelines, compile_scatter_pages_pipeline};
use autograd::mixed::{compile_f32_to_f16_pipeline, compile_mixed_pipelines, compile_scale_pipeline};
use autograd::nan_check::{compile_nan_check_final_pipeline, compile_nan_check_pipeline, GpuNanDetector};
use autograd::sampler::{compile_sampler_pipelines, compile_top_k_mask_pipeline};

fn ctx() -> GpuContext {
    let rep = AdapterReport {
        vendor_id: 0x1002,
        backend: BackendKind::Vulkan,
        device_name: "dev".to_string(),
        device_type: DeviceKind::DiscreteGpu,
        subgroup: false,
        subgroup_barrier: false,
        shader_f16: true,
        shader_f64: false,
        timestamp_query: false,
        timestamp_query_inside_passes: false,
        timestamp_query_inside_encoders: false,
        max_compute_workgroup_size_x: 256,
        max_compute_workgroup_size_y: 256,
        max_compute_workgroup_size_z: 64,
        max_compute_invocations_per_workgroup: 256,
        max_compute_workgroup_storage_size: 16384,
        max_storage_buffer_binding_size: 1 << 28,
        max_bind_groups: 4,
    };
    GpuContext::new(GpuCapabilities::from_report(rep), 4)
}

#[test]
fn cached_compile_returns_the_same_handle() {
    let mut c = ctx();
    assert_eq!(c.compile_pipeline_cached("a"), 0);
    assert_eq!(c.compile_pipeline_cached("b"), 1);
    assert_eq!(c.compile_pipeline_cached("a"), 0);
    assert_eq!(c.compile_pipeline_cached("c"), 2);
    assert_eq!(c.compile_pipeline_cached("b"), 1);
    assert!(c.has_pipeline("c"));
    assert!(!c.has_pipeline("d"));
}

#[test]
fn recompiling_utility_pipelines_keeps_handles() {
    let mut c = ctx();
    c.compile_fill_zero();
    c.compile_fused_ops();
    c.compile_fused_ops();
    c.compile_fill_zero();
    assert_eq!(c.compile_pipeline_cached("fill_zero"), 0);
    assert_eq!(c.compile_pipeline_cached("fused_matmul_bias"), 1);
    assert_eq!(c.compile_pipeline_cached("fused_online_softmax"), 2);
    assert_eq!(c.compile_pipeline_cached("scale_inplace"), 3);
}

#[test]
fn pipeline_sets_hand_out_distinct_handles() {
    let mut c = ctx();
    let s = compile_sampler_pipelines(&mut c);
    assert_eq!((s.temperature_scale, s.top_k_mask, s.multinomial), (0, 1, 2));
    assert_eq!(compile_top_k_mask_pipeline(&mut c), 1);
    let m = compile_mixed_pipelines(&mut c);
    assert_eq!(
        (m.f32_to_f16, m.f16_to_f32, m.f32_to_bf16, m.bf16_to_f32, m.scale, m.unscale),
        (3, 4, 5, 6, 7, 8)
    );
    assert_eq!(compile_scale_pipeline(&mut c), 7);
    assert_eq!(compile_f32_to_f16_pipeline(&mut c), 3);
    assert_eq!(compile_scatter_pages_pipeline(&mut c), 9);
    let k = compile_kv_cache_pipelines(&mut c);
    assert_eq!((k.gather, k.scatter), (10, 9));
    assert_eq!(compile_gather_pages_pipeline(&mut c), 10);
    for name in ["temperature_scale_sampler", "multinomial_sample_sampler", "bf16_to_f32", "unscale", "gather_pages"] {
        assert!(c.has_pipeline(name), "{name}");
    }
}

#[test]
fn nan_detector_compiles_its_pipelines_once() {
    let mut c = ctx();
    assert_eq!(compile_nan_check_final_pipeline(&mut c), 0);
    let mut d = GpuNanDetector::new(true, false);
    assert!(d.needs_pipelines());
    d.ensure_pipelines(&mut c);
    assert!(!d.needs_pipelines());
    assert!(c.has_pipeline("nan_check_reduce"));
    assert_eq!(compile_nan_check_pipeline(&mut c), 1);
    assert_eq!(c.compile_pipeline_cached("nan_check_reduce"), 2);
    assert_eq!(c.compile_pipeline_cached("next"), 3);
    d.ensure_pipelines(&mut c);
    assert_eq!(c.compile_pipeline_cached("later"), 4);
}
