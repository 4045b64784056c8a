use host_metrics::cache::{CpuCache, MemoryCache};
use host_metrics::snapshot::{copy_cores, CpuCoreSnapshot, MemorySnapshot};

fn sample_core(usage: f32, frequency_hz: u64, vendor: &str, brand: &str) -> CpuCoreSnapshot {
    CpuCoreSnapshot::new(usage.to_bits(), frequency_hz, vendor.to_string(), brand.to_string())
}

#[test]
fn memory_cache_starts_with_the_default_snapshot() {
    let cache = MemoryCache::new();
    let held = cache.get();
    assert_eq!(held.total_memory, "");
    assert_eq!(held.used_memory, "");
    assert_eq!(held.total_swap, "");
    assert_eq!(held.used_swap, "");
}

#[test]
fn default_memory_snapshot_is_empty() {
    let empty = MemorySnapshot::default();
    assert_eq!(empty.total_memory, "");
    assert_eq!(empty.used_memory, "");
    assert_eq!(empty.total_swap, "");
    assert_eq!(empty.used_swap, "");
}

#[test]
fn memory_snapshot_formats_each_field() {
    let snapshot = MemorySnapshot::from_bytes(16_000_000_000, 8_500_000_000, 2_000_000, 512);
    assert_eq!(snapshot.total_memory, "16.00 GB");
    assert_eq!(snapshot.used_memory, "8.50 GB");
    assert_eq!(snapshot.total_swap, "2.00 MB");
    assert_eq!(snapshot.used_swap, "512");
}

#[test]
fn memory_cache_returns_what_was_set_until_the_next_set() {
    let mut cache = MemoryCache::new();
    cache.set(MemorySnapshot::from_bytes(4_000, 3_000, 2_000, 1_000));
    for _ in 0..3 {
        let held = cache.get();
        assert_eq!(held.total_memory, "4.00 KB");
        assert_eq!(held.used_memory, "3.00 KB");
        assert_eq!(held.total_swap, "2.00 KB");
        assert_eq!(held.used_swap, "1.00 KB");
    }
    cache.set(MemorySnapshot::from_bytes(1, 2, 3, 4));
    let held = cache.get();
    assert_eq!(held.total_memory, "1");
    assert_eq!(held.used_memory, "2");
    assert_eq!(held.total_swap, "3");
    assert_eq!(held.used_swap, "4");
}

#[test]
fn memory_snapshot_clone_keeps_every_field() {
    let snapshot = MemorySnapshot::from_bytes(10_000, 20_000, 30_000, 40_000);
    let copy = snapshot.clone();
    assert_eq!(copy.total_memory, snapshot.total_memory);
    assert_eq!(copy.used_memory, snapshot.used_memory);
    assert_eq!(copy.total_swap, snapshot.total_swap);
    assert_eq!(copy.used_swap, snapshot.used_swap);
}

#[test]
fn cpu_cache_starts_empty() {
    let cache = CpuCache::new();
    assert!(cache.get().is_empty());
}

#[test]
fn cpu_cache_replaces_the_whole_list_in_order() {
    let mut cache = CpuCache::new();
    cache.set(vec![
        sample_core(12.5, 2_400, "GenuineIntel", "first"),
        sample_core(50.0, 2_600, "GenuineIntel", "second"),
        sample_core(99.0, 2_800, "GenuineIntel", "third"),
    ]);
    for _ in 0..2 {
        let held = cache.get();
        assert_eq!(held.len(), 3);
        assert_eq!(held[0].brand, "first");
        assert_eq!(held[1].brand, "second");
        assert_eq!(held[2].brand, "third");
        assert_eq!(f32::from_bits(held[0].usage_bits), 12.5);
        assert_eq!(held[1].frequency_hz, 2_600);
        assert_eq!(held[2].vendor_id, "GenuineIntel");
    }
    cache.set(vec![sample_core(1.0, 1, "v", "only")]);
    let held = cache.get();
    assert_eq!(held.len(), 1);
    assert_eq!(held[0].brand, "only");
}

#[test]
fn copy_cores_keeps_order_and_fields() {
    let cores = vec![sample_core(0.0, 10, "a", "x"), sample_core(100.0, 20, "b", "y")];
    let copy = copy_cores(&cores);
    assert_eq!(copy.len(), 2);
    assert_eq!(copy[0].usage_bits, 0.0f32.to_bits());
    assert_eq!(copy[0].frequency_hz, 10);
    assert_eq!(copy[0].vendor_id, "a");
    assert_eq!(copy[0].brand, "x");
    assert_eq!(copy[1].usage_bits, 100.0f32.to_bits());
    assert_eq!(copy[1].frequency_hz, 20);
    assert_eq!(copy[1].vendor_id, "b");
    assert_eq!(copy[1].brand, "y");
    assert!(copy_cores(&Vec::new()).is_empty());
}
