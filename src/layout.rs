//! The kernel's layout in memory and the linear window.
//!
//! While booting, memory holds the kernel image, then the boot stack, then
//! the page that serves as boot page table, then free memory. Afterwards the
//! boot page table's page is free memory too.

use crate::linker::MemInfo;
use crate::sv39::PAGE_SIZE;
use vstd::prelude::*;

verus! {

/// Bytes of the boot stack, which follows the kernel image.
pub const BOOT_STACK_SIZE: u64 = 0x4000;

/// Rounds `x` up to a multiple of the page size.
pub open spec fn page_align_up(x: int) -> int {
    ((x + PAGE_SIZE - 1) / PAGE_SIZE as int) * PAGE_SIZE
}

/// The kernel's layout: the image's addresses and the top of the linear
/// window.
#[derive(Clone, Copy, Debug)]
pub struct KernelLayout {
    linked: MemInfo,
    top: u64,
}

impl KernelLayout {
    /// Virtual address minus physical address in the linear window.
    pub closed spec fn linear_offset(self) -> int {
        self.linked.offset as int
    }

    /// Virtual address of the image's first byte.
    pub closed spec fn image_start(self) -> int {
        self.linked.start as int
    }

    /// Virtual address of `.bss`.
    pub closed spec fn bss_start(self) -> int {
        self.linked.bss as int
    }

    /// Virtual address of the image's end.
    pub closed spec fn image_end(self) -> int {
        self.linked.end as int
    }

    /// Virtual end of the linear window.
    pub closed spec fn linear_top(self) -> int {
        self.top as int
    }

    /// The image has been located: its addresses are in order, lie in the
    /// linear window, and leave room for the boot stack and two pages.
    pub open spec fn located(self) -> bool {
        &&& self.linear_offset() <= self.image_start() <= self.bss_start() <= self.image_end()
        &&& self.image_end() + BOOT_STACK_SIZE + 2 * PAGE_SIZE <= u64::MAX
    }

    /// Virtual address of the page that serves as boot page table: the first
    /// page boundary at or after the end of the boot stack.
    pub open spec fn boot_root(self) -> int {
        page_align_up(self.image_end() + BOOT_STACK_SIZE)
    }

    /// Virtual address of the first byte after the boot page table.
    pub open spec fn free_start(self) -> int {
        self.boot_root() + PAGE_SIZE
    }

    /// The virtual address of physical address `p`.
    pub open spec fn virt_of(self, p: int) -> int {
        p + self.linear_offset()
    }

    /// The physical address of virtual address `v` of the linear window.
    pub open spec fn phys_of(self, v: int) -> int {
        v - self.linear_offset()
    }

    /// A layout that has not been located yet: every address is the largest
    /// one.
    pub fn new() -> (r: Self)
        ensures
            r.linear_offset() == u64::MAX,
            r.image_start() == u64::MAX,
            r.bss_start() == u64::MAX,
            r.image_end() == u64::MAX,
            r.linear_top() == u64::MAX,
    {
        KernelLayout { linked: MemInfo::init(), top: u64::MAX }
    }

    /// Locates the image from the physical addresses of its start, its
    /// `.bss` and its end, found while running at physical addresses.
    pub fn locate(&mut self, start: u64, bss: u64, end: u64)
        requires
            start <= crate::linker::START,
            start <= bss <= end,
            end - start + BOOT_STACK_SIZE + 2 * PAGE_SIZE <= u64::MAX - crate::linker::START,
        ensures
            final(self).located(),
            final(self).linear_offset() == crate::linker::START - start,
            final(self).image_start() == crate::linker::START,
            final(self).bss_start() == final(self).virt_of(bss as int),
            final(self).image_end() == final(self).virt_of(end as int),
            final(self).linear_top() == old(self).linear_top(),
    {
        self.linked = MemInfo::locate(start, bss, end);
    }

    /// Records the virtual end of the linear window.
    pub fn set_top(&mut self, top: u64)
        ensures
            final(self).linear_top() == top,
            final(self).linear_offset() == old(self).linear_offset(),
            final(self).image_start() == old(self).image_start(),
            final(self).bss_start() == old(self).bss_start(),
            final(self).image_end() == old(self).image_end(),
    {
        self.top = top;
    }

    /// Virtual address of the page that serves as boot page table.
    pub fn boot_pt_root(&self) -> (r: u64)
        requires
            self.located(),
        ensures
            r == self.boot_root(),
            r % PAGE_SIZE == 0,
            self.image_end() + BOOT_STACK_SIZE <= r < self.image_end() + BOOT_STACK_SIZE
                + PAGE_SIZE,
    {
        let r = (self.linked.end + BOOT_STACK_SIZE + (PAGE_SIZE - 1)) / PAGE_SIZE * PAGE_SIZE;
        r
    }

    /// Virtual address minus physical address in the linear window.
    pub fn offset(&self) -> (r: u64)
        ensures
            r == self.linear_offset(),
    {
        self.linked.offset
    }

    /// The virtual address of physical address `paddr`.
    pub fn p_to_v(&self, paddr: u64) -> (r: u64)
        requires
            self.virt_of(paddr as int) <= u64::MAX,
        ensures
            r == self.virt_of(paddr as int),
    {
        paddr + self.linked.offset
    }

    /// The physical address of virtual address `vaddr` of the linear window.
    pub fn v_to_p(&self, vaddr: u64) -> (r: u64)
        requires
            self.linear_offset() <= vaddr,
        ensures
            r == self.phys_of(vaddr as int),
    {
        vaddr - self.linked.offset
    }

    /// Virtual address of the image's first byte.
    pub fn start(&self) -> (r: u64)
        ensures
            r == self.image_start(),
    {
        self.linked.start
    }

    /// Virtual address of `.bss`.
    pub fn bss(&self) -> (r: u64)
        ensures
            r == self.bss_start(),
    {
        self.linked.bss
    }

    /// Virtual address of the image's end.
    pub fn end(&self) -> (r: u64)
        ensures
            r == self.image_end(),
    {
        self.linked.end
    }

    /// Virtual end of the linear window.
    pub fn top(&self) -> (r: u64)
        ensures
            r == self.linear_top(),
    {
        self.top
    }

    /// The virtual address of the first byte of physical page `ppn`.
    pub fn ppn_to_v(&self, ppn: u64) -> (r: u64)
        requires
            self.virt_of(ppn * PAGE_SIZE) <= u64::MAX,
        ensures
            r == self.virt_of(ppn * PAGE_SIZE),
    {
        self.p_to_v(ppn * PAGE_SIZE)
    }

    /// The number of the physical page that holds virtual address `vaddr`
    /// of the linear window.
    pub fn v_to_ppn(&self, vaddr: u64) -> (r: u64)
        requires
            self.linear_offset() <= vaddr,
        ensures
            r == self.phys_of(vaddr as int) / PAGE_SIZE as int,
    {
        self.v_to_p(vaddr) / PAGE_SIZE
    }
}

/// The linear window's two translations undo each other: a physical address
/// taken to its virtual address and back is unchanged, and so is a virtual
/// address of the window taken to its physical address and back; the same
/// holds of page numbers and page-aligned virtual addresses.
pub proof fn lemma_linear_round_trip(layout: KernelLayout, p: int, v: int, ppn: int)
    requires
        0 <= p,
        layout.virt_of(p) <= u64::MAX,
        layout.linear_offset() <= v <= u64::MAX,
        0 <= ppn,
        layout.virt_of(ppn * PAGE_SIZE) <= u64::MAX,
    ensures
        layout.phys_of(layout.virt_of(p)) == p,
        layout.virt_of(layout.phys_of(v)) == v,
        layout.phys_of(layout.virt_of(ppn * PAGE_SIZE)) / PAGE_SIZE as int == ppn,
        layout.phys_of(v) % PAGE_SIZE as int == 0 ==> layout.virt_of(
            (layout.phys_of(v) / PAGE_SIZE as int) * PAGE_SIZE,
        ) == v,
{
    assert((ppn * PAGE_SIZE) / PAGE_SIZE as int == ppn) by (nonlinear_arith);
    let q = layout.phys_of(v);
    assert(q % PAGE_SIZE as int == 0 ==> (q / PAGE_SIZE as int) * PAGE_SIZE == q) by (nonlinear_arith);
}

} // verus!
