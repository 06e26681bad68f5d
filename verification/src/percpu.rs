//! Per-CPU data: one cache-hot record per processor, owned exclusively by
//! its CPU; cross-CPU access is out of scope for this core.

use vstd::prelude::*;

verus! {

/// Maximum number of CPUs supported.
pub const MAX_CPUS: usize = 256;

/// Size in bytes of the per-CPU scratch buffer.
pub const SCRATCH_BUFFER_SIZE: usize = 1024;

/// Per-CPU record: identity, a scratch buffer for temporary work, the
/// currently running task and an idle counter.
pub struct PerCpuData {
    /// CPU ID.
    pub cpu_id: u32,
    /// Scratch buffer for temporary allocations.
    pub scratch_buffer: Vec<u8>,
    /// Current task ID.
    pub current_task: u32,
    /// Idle time counter.
    pub idle_ticks: u32,
}

impl PerCpuData {
    /// Create the record for one CPU, with a zeroed scratch buffer.
    pub fn new(cpu_id: u32) -> (d: Self)
        ensures
            d.cpu_id == cpu_id,
            d.scratch_buffer@ == Seq::new(SCRATCH_BUFFER_SIZE as nat, |i: int| 0u8),
            d.current_task == 0,
            d.idle_ticks == 0,
    {
        let scratch_buffer: Vec<u8> = vec![0u8; SCRATCH_BUFFER_SIZE];
        proof {
            assert(scratch_buffer@ =~= Seq::new(SCRATCH_BUFFER_SIZE as nat, |i: int| 0u8));
        }
        Self { cpu_id, scratch_buffer, current_task: 0, idle_ticks: 0 }
    }
}

/// Identity of the executing CPU.  Only the bootstrap processor is brought
/// up by this core, so the answer is CPU 0; reading a hardware CPU id is
/// the surrounding kernel's concern.
pub fn current_cpu_id() -> (id: u32)
    ensures
        id == 0,
{
    0
}

} // verus!
