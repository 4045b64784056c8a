//! Point-in-time readings: one per CPU core, one for memory.

use vstd::prelude::*;
use crate::format::{human_text, HumanReadable, DEFAULT_PRECISION};

verus! {

/// What a [`MemorySnapshot`] says: four magnitude strings.
pub struct MemoryText {
    pub total_memory: Seq<char>,
    pub used_memory: Seq<char>,
    pub total_swap: Seq<char>,
    pub used_swap: Seq<char>,
}

/// Memory and swap of the host, each already formatted as a magnitude string.
#[derive(Debug)]
pub struct MemorySnapshot {
    pub total_memory: String,
    pub used_memory: String,
    pub total_swap: String,
    pub used_swap: String,
}

impl View for MemorySnapshot {
    type V = MemoryText;

    open spec fn view(&self) -> MemoryText {
        MemoryText {
            total_memory: self.total_memory@,
            used_memory: self.used_memory@,
            total_swap: self.total_swap@,
            used_swap: self.used_swap@,
        }
    }
}

impl Clone for MemorySnapshot {
    fn clone(&self) -> (copy: Self)
        ensures
            copy == *self,
    {
        MemorySnapshot {
            total_memory: self.total_memory.clone(),
            used_memory: self.used_memory.clone(),
            total_swap: self.total_swap.clone(),
            used_swap: self.used_swap.clone(),
        }
    }
}

impl Default for MemorySnapshot {
    /// The snapshot before any sample: four empty strings.
    fn default() -> (empty: Self)
        ensures
            empty@ == MemorySnapshot::empty_text(),
    {
        MemorySnapshot {
            total_memory: String::new(),
            used_memory: String::new(),
            total_swap: String::new(),
            used_swap: String::new(),
        }
    }
}

impl MemorySnapshot {
    /// What the snapshot says before any sample.
    pub open spec fn empty_text() -> MemoryText {
        MemoryText {
            total_memory: Seq::empty(),
            used_memory: Seq::empty(),
            total_swap: Seq::empty(),
            used_swap: Seq::empty(),
        }
    }

    /// What a snapshot of the four byte counts says.
    pub open spec fn text_of(total_memory: u64, used_memory: u64, total_swap: u64, used_swap: u64)
        -> MemoryText {
        MemoryText {
            total_memory: human_text(total_memory as nat, DEFAULT_PRECISION as nat),
            used_memory: human_text(used_memory as nat, DEFAULT_PRECISION as nat),
            total_swap: human_text(total_swap as nat, DEFAULT_PRECISION as nat),
            used_swap: human_text(used_swap as nat, DEFAULT_PRECISION as nat),
        }
    }

    /// Builds the snapshot of one memory reading, in bytes, with the default
    /// precision.
    pub fn from_bytes(total_memory: u64, used_memory: u64, total_swap: u64, used_swap: u64) -> (snapshot: Self)
        ensures
            snapshot@ == Self::text_of(total_memory, used_memory, total_swap, used_swap),
    {
        MemorySnapshot {
            total_memory: total_memory.to_human(None),
            used_memory: used_memory.to_human(None),
            total_swap: total_swap.to_human(None),
            used_swap: used_swap.to_human(None),
        }
    }
}

/// What a [`CpuCoreSnapshot`] says.
pub struct CpuCoreText {
    pub usage_bits: u32,
    pub frequency_hz: u64,
    pub vendor_id: Seq<char>,
    pub brand: Seq<char>,
}

/// One logical core at sample time. The usage percentage is carried as the
/// bit pattern of its IEEE 754 single-precision value and never interpreted
/// here.
#[derive(Debug)]
pub struct CpuCoreSnapshot {
    pub usage_bits: u32,
    pub frequency_hz: u64,
    pub vendor_id: String,
    pub brand: String,
}

impl View for CpuCoreSnapshot {
    type V = CpuCoreText;

    open spec fn view(&self) -> CpuCoreText {
        CpuCoreText {
            usage_bits: self.usage_bits,
            frequency_hz: self.frequency_hz,
            vendor_id: self.vendor_id@,
            brand: self.brand@,
        }
    }
}

impl Clone for CpuCoreSnapshot {
    fn clone(&self) -> (copy: Self)
        ensures
            copy == *self,
    {
        CpuCoreSnapshot {
            usage_bits: self.usage_bits,
            frequency_hz: self.frequency_hz,
            vendor_id: self.vendor_id.clone(),
            brand: self.brand.clone(),
        }
    }
}

impl CpuCoreSnapshot {
    /// The snapshot of one core from its four readings.
    pub fn new(usage_bits: u32, frequency_hz: u64, vendor_id: String, brand: String) -> (core: Self)
        ensures
            core@ == (CpuCoreText {
                usage_bits,
                frequency_hz,
                vendor_id: vendor_id@,
                brand: brand@,
            }),
    {
        CpuCoreSnapshot { usage_bits, frequency_hz, vendor_id, brand }
    }
}

/// What an ordered sequence of core snapshots says, core by core.
pub open spec fn cores_text(cores: Seq<CpuCoreSnapshot>) -> Seq<CpuCoreText> {
    cores.map_values(|core: CpuCoreSnapshot| core@)
}

/// Copies a sequence of core snapshots, keeping the order.
pub fn copy_cores(cores: &Vec<CpuCoreSnapshot>) -> (copy: Vec<CpuCoreSnapshot>)
    ensures
        copy@ == cores@,
{
    let mut copy: Vec<CpuCoreSnapshot> = Vec::new();
    let mut i: usize = 0;
    while i < cores.len()
        invariant
            i <= cores.len(),
            copy@ == cores@.take(i as int),
        decreases cores.len() - i,
    {
        copy.push(cores[i].clone());
        i = i + 1;
        proof {
            assert(copy@ =~= cores@.take(i as int));
        }
    }
    proof {
        assert(cores@.take(cores.len() as int) =~= cores@);
    }
    copy
}

} // verus!
