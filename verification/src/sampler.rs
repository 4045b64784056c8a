//! One sampling cycle of each metric family: the new snapshot replaces the
//! cached one and the same snapshot is published.

use vstd::prelude::*;
use crate::cache::{CpuCache, MemoryCache};
use crate::hub::publish;
use crate::snapshot::{copy_cores, cores_text, CpuCoreSnapshot, MemorySnapshot};

verus! {

/// Stores the snapshot of one memory reading and returns the message to
/// publish, which says what the cache now holds.
pub fn record_memory(
    cache: &mut MemoryCache,
    total_memory: u64,
    used_memory: u64,
    total_swap: u64,
    used_swap: u64,
) -> (message: MemorySnapshot)
    ensures
        final(cache)@ == MemorySnapshot::text_of(total_memory, used_memory, total_swap, used_swap),
        message@ == final(cache)@,
{
    let snapshot = MemorySnapshot::from_bytes(total_memory, used_memory, total_swap, used_swap);
    let message = snapshot.clone();
    cache.set(snapshot);
    message
}

/// Stores the cores of one CPU reading and returns the message to publish,
/// which says what the cache now holds.
pub fn record_cpu(cache: &mut CpuCache, cores: Vec<CpuCoreSnapshot>) -> (message: Vec<
    CpuCoreSnapshot,
>)
    ensures
        final(cache)@ == cores_text(cores@),
        cores_text(message@) == final(cache)@,
{
    let message = copy_cores(&cores);
    cache.set(cores);
    message
}

/// One cycle of the memory sampler on a reading in bytes: the cache is
/// overwritten, then the same snapshot goes to the hub. Returns what the
/// publish reports; an absent subscriber changes nothing for the cache.
pub fn memory_cycle(
    cache: &mut MemoryCache,
    hub: &tokio::sync::broadcast::Sender<MemorySnapshot>,
    total_memory: u64,
    used_memory: u64,
    total_swap: u64,
    used_swap: u64,
) -> (count: Option<usize>)
    ensures
        final(cache)@ == MemorySnapshot::text_of(total_memory, used_memory, total_swap, used_swap),
        count matches Some(n) ==> n >= 1,
{
    let message = record_memory(cache, total_memory, used_memory, total_swap, used_swap);
    publish(hub, message)
}

/// One cycle of the CPU sampler on the cores just read: the cache is
/// overwritten, then the same core list goes to the hub. Returns what the
/// publish reports; an absent subscriber changes nothing for the cache.
pub fn cpu_cycle(
    cache: &mut CpuCache,
    hub: &tokio::sync::broadcast::Sender<Vec<CpuCoreSnapshot>>,
    cores: Vec<CpuCoreSnapshot>,
) -> (count: Option<usize>)
    ensures
        final(cache)@ == cores_text(cores@),
        count matches Some(n) ==> n >= 1,
{
    let message = record_cpu(cache, cores);
    publish(hub, message)
}

} // verus!
