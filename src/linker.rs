//! Addresses fixed when the kernel image is linked.

use vstd::prelude::*;

verus! {

/// The virtual address at which the kernel image is linked.
pub const START: u64 = 0xffff_ffc0_8020_0000;

/// Addresses of the kernel image.
///
/// `offset` is the virtual address to which physical address 0 is mapped;
/// `start`, `bss` and `end` are the virtual addresses of the image's first
/// byte, of its `.bss` section and of its end.
#[derive(Clone, Copy, Debug)]
pub struct MemInfo {
    /// Linear-window offset: virtual address minus physical address.
    pub offset: u64,
    /// Virtual address that the end of physical memory is mapped to.
    pub top: u64,
    /// Virtual address of the image's first byte.
    pub start: u64,
    /// Virtual address of `.bss`.
    pub bss: u64,
    /// Virtual address of the image's end.
    pub end: u64,
}

impl MemInfo {
    /// A value that is not zero, so that it is not placed in `.bss`; every
    /// address is the largest one.
    pub fn init() -> (r: Self)
        ensures
            r.offset == u64::MAX,
            r.top == u64::MAX,
            r.start == u64::MAX,
            r.bss == u64::MAX,
            r.end == u64::MAX,
    {
        MemInfo { offset: u64::MAX, top: u64::MAX, start: u64::MAX, bss: u64::MAX, end: u64::MAX }
    }

    /// Locates the image from the physical addresses at which its start, its
    /// `.bss` and its end are found at run time: the offset is what moves the
    /// physical start to `START`, and every address is moved by it.
    pub fn locate(start: u64, bss: u64, end: u64) -> (r: Self)
        requires
            start <= START,
            start <= bss <= end,
            end - start <= u64::MAX - START,
        ensures
            r.offset == START - start,
            r.top == 0,
            r.start == START,
            r.bss == bss + r.offset,
            r.end == end + r.offset,
    {
        let offset = START - start;
        MemInfo { offset, top: 0, start: start + offset, bss: bss + offset, end: end + offset }
    }
}

} // verus!
