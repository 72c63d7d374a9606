//! A small RISC-V machine-mode kernel core: page free list, PLIC and UART
//! register programming, and the trap dispatcher, all as verified logic over
//! plain values. Memory-mapped accesses are described by `RegWrite` values
//! and carried out by the caller.
pub mod page_alloc;
pub mod console;
pub mod mmio;
pub mod plic;
pub mod trap;
pub mod uart;
