use autograd::bind_cache::{bind_group_key, label_hash, BindGroupCache, BindingPart, MAX_BIND_GROUP_CACHE};
use std::hash::{Hash, Hasher};

#[test]
fn label_hash_matches_str_hash() {
    for label in ["", "gradient_clip_bg", "matmul"] {
        let mut h = std::collections::hash_map::DefaultHasher::new();
        label.hash(&mut h);
        assert_eq!(label_hash(label), h.finish());
    }
}

#[test]
fn key_folds_offsets_and_sizes() {
    let parts = [
        BindingPart::Buffer { offset: 16, size: Some(64) },
        BindingPart::Other,
        BindingPart::Buffer { offset: 0, size: None },
    ];
    let base: u64 = ((0u64.wrapping_mul(31).wrapping_add(16)).wrapping_mul(31).wrapping_add(64))
        .wrapping_mul(31)
        .wrapping_add(0);
    assert_eq!(bind_group_key(&parts, "bg"), base.wrapping_mul(31).wrapping_add(label_hash("bg")));
    assert_ne!(bind_group_key(&parts, "bg"), bind_group_key(&parts, "other"));
    assert_eq!(bind_group_key(&[], "x"), label_hash("x"));
}

#[test]
fn cache_hits_and_starts_over_when_full() {
    let mut c: BindGroupCache<u32> = BindGroupCache::new();
    assert_eq!(c.get(1), None);
    c.insert(1, 10);
    assert_eq!(c.get(1), Some(&10));
    c.insert(1, 11);
    assert_eq!(c.get(1), Some(&11));
    assert_eq!(c.len(), 1);
    for k in 2..=(MAX_BIND_GROUP_CACHE as u64) {
        c.insert(k, k as u32);
    }
    assert_eq!(c.len(), MAX_BIND_GROUP_CACHE);
    c.insert(5000, 7);
    assert_eq!(c.len(), 1);
    assert_eq!(c.get(5000), Some(&7));
    assert_eq!(c.get(1), None);
}
