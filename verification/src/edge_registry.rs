//! Edge-case registry: a bounded append-only record of unusual conditions
//! met at runtime, kept for diagnostics.

use vstd::prelude::*;

verus! {

/// Maximum number of edge cases that can be registered.
pub const MAX_EDGE_CASES: usize = 1024;

/// One registered edge case.
#[derive(Clone, Copy, PartialEq, Eq, Structural, Debug)]
pub struct EdgeCase {
    /// Error code.
    pub code: u32,
    /// Source location (file ID).
    pub file_id: u16,
    /// Source location (line number).
    pub line: u16,
    /// Timestamp (ticks since boot).
    pub timestamp: u32,
}

impl EdgeCase {
    /// Create a new edge case entry.
    pub fn new(code: u32, file_id: u16, line: u16, timestamp: u32) -> (e: Self)
        ensures
            e.code == code,
            e.file_id == file_id,
            e.line == line,
            e.timestamp == timestamp,
    {
        Self { code, file_id, line, timestamp }
    }
}

/// Bounded registry of edge cases; once full, further registrations are
/// silently dropped.
pub struct EdgeRegistry {
    entries: Vec<EdgeCase>,
}

impl EdgeRegistry {
    /// The registered entries, oldest first.
    pub closed spec fn recorded(self) -> Seq<EdgeCase> {
        self.entries@
    }

    /// Structural invariant.
    pub open spec fn wf(self) -> bool {
        self.recorded().len() <= MAX_EDGE_CASES
    }

    /// Create an empty registry.
    pub fn new() -> (r: Self)
        ensures
            r.wf(),
            r.recorded() == Seq::<EdgeCase>::empty(),
    {
        Self { entries: Vec::new() }
    }

    /// Register a new edge case; a full registry drops it.
    pub fn register(&mut self, code: u32, file_id: u16, line: u16, timestamp: u32)
        requires
            old(self).wf(),
        ensures
            final(self).wf(),
            if old(self).recorded().len() < MAX_EDGE_CASES {
                final(self).recorded() == old(self).recorded().push(
                    EdgeCase { code, file_id, line, timestamp },
                )
            } else {
                final(self).recorded() == old(self).recorded()
            },
    {
        if self.entries.len() < MAX_EDGE_CASES {
            self.entries.push(EdgeCase::new(code, file_id, line, timestamp));
        }
    }

    /// All registered edge cases.
    pub fn entries(&self) -> (r: &Vec<EdgeCase>)
        ensures
            r@ == self.recorded(),
    {
        &self.entries
    }
}

} // verus!
