//! Model of the earliest privileged layer of a small kernel: a synchronized
//! text console together with the interrupt/exception dispatch state that
//! protects it.
//!
//! The hardware edges (memory-mapped display stores, controller port writes,
//! descriptor-table loads) live outside this crate; here the console grid,
//! the vector assignment and the dispatch discipline are plain data with
//! proved invariants.

pub mod interrupts;
pub mod keyboard;
pub mod machine;
pub mod vga_buffer;
