use autograd::core_layout::{CoreLayout, GpuDebugConfig};

#[test]
fn test_core_layout_detect() {
    let layout = CoreLayout::detect();
    assert!(layout.total_cores >= 1, "at least 1 core");
    assert!(!layout.data_cores.is_empty(), "data_cores non-empty");
    if layout.total_cores >= 4 {
        assert_eq!(layout.data_cores.len(), 2, "reserve 2 cores for data when ≥4 total");
    }
    println!("{}", layout.display());
}

#[test]
fn test_debug_config_default() {
    let cfg = GpuDebugConfig::default();
    assert!(!cfg.sync_execution);
    assert!(!cfg.verbose_tensor_check);
    assert!(!cfg.deterministic);
    assert!(!cfg.kernel_validation);
}

#[test]
fn layout_for_eight_cores() {
    let l = CoreLayout::from_total_cores(8);
    assert_eq!(l.total_cores, 8);
    assert_eq!(l.data_cores, vec![0, 1]);
    assert_eq!(l.compute_cores, vec![2, 3, 4, 5, 6, 7]);
    assert_eq!(l.rayon_threads(), 2);
    assert_eq!(l.openblas_threads(), 2);
    assert_eq!(
        l.display(),
        "CoreLayout: 8 total | data=[0, 1] (2 threads) | compute=[2, 3, 4, 5, 6, 7]"
    );
}

#[test]
fn layout_for_small_machines() {
    let three = CoreLayout::from_total_cores(3);
    assert_eq!(three.data_cores, vec![0]);
    assert_eq!(three.compute_cores, vec![1, 2]);
    let two = CoreLayout::from_total_cores(2);
    assert_eq!(two.data_cores, vec![0]);
    assert_eq!(two.compute_cores, vec![1]);
    let one = CoreLayout::from_total_cores(1);
    assert_eq!(one.data_cores, vec![0]);
    assert!(one.compute_cores.is_empty());
    assert_eq!(one.display(), "CoreLayout: 1 total | data=[0] (1 threads) | compute=[]");
    let zero = CoreLayout::from_total_cores(0);
    assert_eq!(zero.total_cores, 1);
    assert_eq!(zero.data_cores, vec![0]);
}

#[test]
fn layout_four_cores_boundary() {
    let l = CoreLayout::from_total_cores(4);
    assert_eq!(l.data_cores, vec![0, 1]);
    assert_eq!(l.compute_cores, vec![2, 3]);
}

#[test]
fn pinning_targets() {
    let l = CoreLayout::from_total_cores(8);
    assert_eq!(l.pin_to_compute(), Some(2));
    assert_eq!(l.pin_to_data(), Some(0));
    assert_eq!(l.pin_to_core(7), Some(7));
    assert_eq!(l.pin_to_core(8), None);
    let one = CoreLayout::from_total_cores(1);
    assert_eq!(one.pin_to_compute(), None);
    assert_eq!(one.pin_to_data(), Some(0));
    let odd = CoreLayout { total_cores: 1, data_cores: vec![], compute_cores: vec![5] };
    assert_eq!(odd.pin_to_compute(), None);
    assert_eq!(odd.pin_to_data(), None);
    assert_eq!(odd.rayon_threads(), 1);
}

#[test]
fn recommended_env_values() {
    let l = CoreLayout::from_total_cores(16);
    let env = l.recommended_env();
    assert_eq!(env.len(), 3);
    assert_eq!(env[0], ("RAYON_NUM_THREADS".to_string(), "2".to_string()));
    assert_eq!(env[1], ("OPENBLAS_NUM_THREADS".to_string(), "2".to_string()));
    assert_eq!(env[2], ("OMP_NUM_THREADS".to_string(), "1".to_string()));
}

#[test]
fn debug_config_from_values() {
    let one = Some("1".to_string());
    let cfg = GpuDebugConfig::from_env_values(&one, &one, &one, &one);
    assert!(cfg.sync_execution);
    assert!(cfg.verbose_tensor_check);
    assert!(cfg.deterministic);
    assert!(cfg.kernel_validation);
    let cfg = GpuDebugConfig::from_env_values(
        &Some("true".to_string()),
        &Some("yes".to_string()),
        &None,
        &Some("TRUE".to_string()),
    );
    assert!(cfg.sync_execution);
    assert!(!cfg.verbose_tensor_check);
    assert!(!cfg.deterministic);
    assert!(!cfg.kernel_validation);
}

#[test]
fn debug_config_display() {
    assert_eq!(
        GpuDebugConfig::default().display(),
        "GpuDebugConfig(sync=off verbose=off deterministic=off validate=off)"
    );
    let cfg = GpuDebugConfig {
        sync_execution: true,
        verbose_tensor_check: false,
        deterministic: true,
        kernel_validation: false,
    };
    assert_eq!(cfg.display(), "GpuDebugConfig(sync=on verbose=off deterministic=on validate=off)");
}

#[test]
fn data_threads_pin_to_the_lowest_data_core() {
    let l = CoreLayout { total_cores: 4, data_cores: vec![3, 1], compute_cores: vec![0, 2] };
    assert_eq!(l.pin_to_data(), Some(1));
    let high = CoreLayout { total_cores: 4, data_cores: vec![6, 5, 9], compute_cores: vec![] };
    assert_eq!(high.pin_to_data(), None);
    let mixed = CoreLayout { total_cores: 4, data_cores: vec![7, 2, 3], compute_cores: vec![] };
    assert_eq!(mixed.pin_to_data(), Some(2));
}
