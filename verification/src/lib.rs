//! Coordination core of a small microkernel: capability-based security with
//! an audit trail, zero-copy message channels over fixed-capacity ring
//! buffers, and a stride scheduler with per-CPU run queues.
//!
//! The kernel-wide tables (token stores, channel table, run queues, audit
//! log) are held as explicitly owned registry values that the surrounding
//! kernel threads through its entry points, rather than as ambient global
//! state; each registry states its invariants and every operation carries a
//! full functional contract.

pub mod ai;
pub mod allocator;
pub mod boot;
pub mod capability;
pub mod edge_registry;
pub mod gpu;
pub mod interrupts;
pub mod ipc;
pub mod percpu;
pub mod scheduler;
pub mod tagfs;
pub mod lazy_pool;
pub mod memory;
pub mod storage;
