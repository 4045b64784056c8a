//! The latest-value cache: one slot per metric family, overwritten by each
//! sampling cycle and never empty.

use vstd::prelude::*;
use crate::snapshot::{copy_cores, cores_text, CpuCoreSnapshot, CpuCoreText, MemorySnapshot, MemoryText};

verus! {

/// The slot of the memory family.
pub struct MemoryCache {
    latest: MemorySnapshot,
}

impl View for MemoryCache {
    type V = MemoryText;

    closed spec fn view(&self) -> MemoryText {
        self.latest@
    }
}

impl MemoryCache {
    /// A cache that holds the default snapshot.
    pub fn new() -> (cache: Self)
        ensures
            cache@ == MemorySnapshot::empty_text(),
    {
        MemoryCache { latest: MemorySnapshot::default() }
    }

    /// A copy of the snapshot held; the cache is left as it is.
    pub fn get(&self) -> (snapshot: MemorySnapshot)
        ensures
            snapshot@ == self@,
    {
        self.latest.clone()
    }

    /// Replaces the snapshot held, whatever it was.
    pub fn set(&mut self, snapshot: MemorySnapshot)
        ensures
            final(self)@ == snapshot@,
    {
        self.latest = snapshot;
    }
}

/// The slot of the CPU family: the cores in enumeration order.
pub struct CpuCache {
    latest: Vec<CpuCoreSnapshot>,
}

impl View for CpuCache {
    type V = Seq<CpuCoreText>;

    closed spec fn view(&self) -> Seq<CpuCoreText> {
        cores_text(self.latest@)
    }
}

impl CpuCache {
    /// A cache that holds the empty core list.
    pub fn new() -> (cache: Self)
        ensures
            cache@ == Seq::<CpuCoreText>::empty(),
    {
        let cache = CpuCache { latest: Vec::new() };
        proof {
            assert(cache@ =~= Seq::<CpuCoreText>::empty());
        }
        cache
    }

    /// A copy of the core list held; the cache is left as it is.
    pub fn get(&self) -> (cores: Vec<CpuCoreSnapshot>)
        ensures
            cores_text(cores@) == self@,
    {
        copy_cores(&self.latest)
    }

    /// Replaces the whole core list held, whatever it was.
    pub fn set(&mut self, cores: Vec<CpuCoreSnapshot>)
        ensures
            final(self)@ == cores_text(cores@),
    {
        self.latest = cores;
    }
}

} // verus!
