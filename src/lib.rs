//! Early-boot virtual memory of a RISC-V kernel: the kernel's layout in
//! physical and linear virtual memory, the boot page table that moves
//! execution to the linear window, the discovery of free physical memory,
//! the heap's growth policy, and the kernel address space.

pub mod boot;
pub mod devicetree;
pub mod heap;
pub mod layout;
pub mod linker;
pub mod page;
pub mod space;
pub mod sv39;
