use autograd::disk_cache::{
    accept_loaded, after_failed_attempt, cache_file_name, default_cache_dir, join_path, PipelineDiskCache,
    RetryDecision, CACHE_VERSION, MAX_RETRIES, RETRY_DELAY_MS,
};
use autograd::text::{push_decimal, push_hex_fixed, push_list};

#[test]
fn file_names() {
    assert_eq!(CACHE_VERSION, 1);
    assert_eq!(cache_file_name(0), "pipeline_v1_0000000000000000.bin");
    assert_eq!(cache_file_name(0xdead_beef), "pipeline_v1_00000000deadbeef.bin");
    assert_eq!(cache_file_name(u64::MAX), "pipeline_v1_ffffffffffffffff.bin");
    assert_eq!(cache_file_name(0x0123_4567_89ab_cdef), format!("pipeline_v1_{:016x}.bin", 0x0123_4567_89ab_cdefu64));
}

#[test]
fn joins_like_pathbuf() {
    for (dir, name) in [("a", "b"), ("a/", "b"), ("", "b"), ("/x/y", "z.bin"), ("/", "z")] {
        let expected = std::path::PathBuf::from(dir).join(name);
        assert_eq!(join_path(dir, name), expected.to_str().unwrap());
    }
}

#[test]
fn default_dir_resolution() {
    assert_eq!(
        default_cache_dir(&Some("/xdg".to_string()), &Some("/home/u".to_string())),
        "/xdg/nexora/pipeline-cache"
    );
    assert_eq!(default_cache_dir(&None, &Some("/home/u".to_string())), "/home/u/.cache/nexora/pipeline-cache");
    assert_eq!(default_cache_dir(&None, &None), "./nexora/pipeline-cache");
    assert_eq!(default_cache_dir(&Some("/xdg/".to_string()), &None), "/xdg/nexora/pipeline-cache");
}

#[test]
fn cache_paths() {
    let c = PipelineDiskCache::with_dir("/tmp/cache".to_string());
    assert_eq!(c.cache_dir(), "/tmp/cache");
    assert_eq!(c.cache_path(255), "/tmp/cache/pipeline_v1_00000000000000ff.bin");
    assert_eq!(c.temp_path(255), "/tmp/cache/pipeline_v1_00000000000000ff.bin.tmp");
    let p = std::path::PathBuf::from(c.cache_path(255)).with_extension("bin.tmp");
    assert_eq!(c.temp_path(255), p.to_str().unwrap());
    assert!(!c.should_save(&[]));
    assert!(c.should_save(&[1]));
    let d = PipelineDiskCache::new(&None, &Some("/h".to_string()));
    assert_eq!(d.cache_dir(), "/h/.cache/nexora/pipeline-cache");
}

#[test]
fn retries() {
    assert_eq!(MAX_RETRIES, 3);
    assert_eq!(after_failed_attempt(1), RetryDecision::RetryAfter(RETRY_DELAY_MS));
    assert_eq!(after_failed_attempt(2), RetryDecision::RetryAfter(50));
    assert_eq!(after_failed_attempt(3), RetryDecision::GiveUp);
}

#[test]
fn loaded_data() {
    assert_eq!(accept_loaded(vec![]), None);
    assert_eq!(accept_loaded(vec![1, 2]), Some(vec![1, 2]));
}

#[test]
fn text_rendering() {
    let mut s = String::new();
    push_decimal(&mut s, 0);
    s.push(' ');
    push_decimal(&mut s, 1234567890123);
    s.push(' ');
    push_hex_fixed(&mut s, 0xabc, 4);
    s.push(' ');
    push_hex_fixed(&mut s, 0x12345, 2);
    s.push(' ');
    push_list(&mut s, &[]);
    push_list(&mut s, &[7, 10, 300]);
    assert_eq!(s, "0 1234567890123 0abc 45 [][7, 10, 300]");
    let mut t = String::new();
    push_decimal(&mut t, u64::MAX);
    assert_eq!(t, u64::MAX.to_string());
}
