use autograd::kv_cache::GpuPageTable;

#[test]
fn pages_come_out_in_increasing_order() {
    let mut t = GpuPageTable::new(4, 16, 2, 8);
    assert_eq!(t.available_pages(), 4);
    assert_eq!(t.allocate(), Some(0));
    assert_eq!(t.allocate(), Some(1));
    assert_eq!(t.available_pages(), 2);
}

#[test]
fn exhausted_table_returns_none() {
    let mut t = GpuPageTable::new(2, 16, 2, 8);
    assert!(t.allocate().is_some());
    assert!(t.allocate().is_some());
    assert_eq!(t.allocate(), None);
    assert_eq!(t.available_pages(), 0);
}

#[test]
fn freed_page_is_reallocated_first() {
    let mut t = GpuPageTable::new(8, 16, 2, 8);
    let a = t.allocate().unwrap();
    let _b = t.allocate().unwrap();
    t.free(a);
    assert_eq!(t.allocate(), Some(a));
}

#[test]
fn double_free_and_out_of_range_are_ignored() {
    let mut t = GpuPageTable::new(4, 16, 2, 8);
    let a = t.allocate().unwrap();
    t.free(a);
    t.free(a);
    assert_eq!(t.available_pages(), 4);
    t.free(99);
    assert_eq!(t.available_pages(), 4);
}

#[test]
fn snapshot_pads_with_zeros() {
    let mut t = GpuPageTable::new(4, 16, 2, 8);
    t.allocate();
    t.allocate();
    t.allocate();
    assert_eq!(t.free_list_snapshot(), vec![3, 0, 0, 0]);
}

#[test]
fn dispatch_config() {
    let t = GpuPageTable::new(4, 16, 4, 8);
    let (cfg, groups) = t.page_dispatch_config(3);
    assert_eq!(cfg, [3, 16, 4, 8]);
    assert_eq!(groups, 3);
    let (_, groups) = t.page_dispatch_config(4);
    assert_eq!(groups, 4);
}

#[test]
fn free_and_handed_out_pages_make_up_all_pages() {
    let mut t = GpuPageTable::new(4, 16, 2, 8);
    let mut held: Vec<u32> = Vec::new();
    for _ in 0..3 {
        held.push(t.allocate().unwrap());
    }
    assert_eq!(t.available_pages() + held.len(), 4);
    t.free(held[1]);
    let back = held.remove(1);
    t.free(back);
    t.free(9);
    assert_eq!(t.available_pages() + held.len(), 4);
    let again = t.allocate().unwrap();
    assert_eq!(again, back);
    assert!(!held.contains(&again));
    held.push(again);
    held.push(t.allocate().unwrap());
    assert_eq!(t.allocate(), None);
    let mut all = held.clone();
    all.sort();
    assert_eq!(all, vec![0, 1, 2, 3]);
}
