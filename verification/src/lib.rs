#![verifier::loop_isolation(false)]
//! Verified memory core of a microkernel that hosts sandboxed WebAssembly
//! modules as processes.
//!
//! The safety-critical boundary of such a kernel is the virtual-memory region
//! abstraction and the per-process WASM linear-memory model built on top of
//! it: they decide whether a sandboxed process can ever touch memory outside
//! its grant.  This crate states and proves that boundary.
//!
//! The architecture-specific page-table primitive, the scheduler, and the
//! bytecode compiler are external collaborators.  They are represented here
//! by the [`mapper::PageMapper`] model, which captures exactly the interface
//! the memory core relies on (`map`, `unmap`, `remap`, `translate`), so that
//! every property proved about [`region::Region`] and the structures above it
//! is a property of that interface alone.

pub mod cpu;
pub mod error;
pub mod flags;
pub mod instance;
pub mod mapper;
pub mod memory;
pub mod region;
