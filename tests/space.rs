use kernel::layout::KernelLayout;
use kernel::space::{AddressSpace, PageManager};
use kernel::sv39::{frame_entry, ppn_of, translate, GIB, KERNEL_FLAGS};

/// Hands out frames from a bump pointer and maps them at a fixed offset.
struct Frames {
    next: u64,
    offset: u64,
    allocated: Vec<(u64, u64)>,
    last: u64,
}

impl PageManager for Frames {
    fn reachable(&self, ppn: u64) -> bool {
        ppn.checked_mul(4096).and_then(|p| p.checked_add(self.offset)).is_some()
    }

    fn last_allocation(&self) -> u64 {
        self.last
    }

    fn ppn_to_virt(&self, ppn: u64) -> u64 {
        self.p_to_v(ppn)
    }

    fn virt_to_ppn(&self, vaddr: u64) -> u64 {
        self.v_to_p(vaddr)
    }

    fn allocate(&mut self, flags: u64, len: u64) -> u64 {
        let ppn = self.next;
        self.next += len;
        self.allocated.push((ppn, len));
        self.last = frame_entry(flags, ppn);
        self.last
    }

    fn deallocate(&mut self, pte: u64, _len: u64) {
        let ppn = pte >> 10;
        self.allocated.retain(|&(p, _)| p != ppn);
    }

    fn share(&mut self, pte: u64, _len: u64) -> (u64, u64) {
        (pte, pte)
    }

    fn exclude(&mut self, pte: u64, _len: u64) -> u64 {
        pte
    }

    fn p_to_v(&self, ppn: u64) -> u64 {
        (ppn << 12) + self.offset
    }

    fn v_to_p(&self, vaddr: u64) -> u64 {
        (vaddr - self.offset) >> 12
    }
}

const OFFSET: u64 = 0xffff_ffc0_0000_0000;

fn frames() -> Frames {
    Frames { next: 0x80400, offset: OFFSET, allocated: Vec::new(), last: 0 }
}

#[test]
fn new_space_allocates_root_frame() {
    let space = AddressSpace::new(frames());
    assert_eq!(space.root(), OFFSET + 0x8040_0000);
    assert_eq!(space.root_ppn(), 0x80400);
    assert_eq!(space.manager().allocated, vec![(0x80400, 1)]);
    assert_eq!(ppn_of(space.manager().last_allocation()), space.root_ppn());
    assert!(space.entries().iter().all(|&e| e == 0));
    assert!(space.segments().is_empty());
}

fn layout_with_top(top: u64) -> KernelLayout {
    let mut layout = KernelLayout::new();
    layout.locate(0x8020_0000, 0x8030_0000, 0x8034_5678);
    layout.set_top(top);
    layout
}

#[test]
fn kernel_maps_linear_window() {
    let layout = layout_with_top(OFFSET + 0x8800_0000);
    let mut space = AddressSpace::new(frames());
    space.kernel(&layout, KERNEL_FLAGS);
    let e = space.entries();
    // 0x8800_0000 bytes need 3 windows of 1 GiB
    assert_eq!(e[256], KERNEL_FLAGS);
    assert_eq!(e[257], ((1u64 << 18) << 10) | KERNEL_FLAGS);
    assert_eq!(e[258], ((2u64 << 18) << 10) | KERNEL_FLAGS);
    assert_eq!(e[259], 0);
    assert_eq!(e.iter().filter(|&&x| x != 0).count(), 3);
    for p in [0u64, 0x8020_0000, 0x87ff_ffff] {
        assert_eq!(translate(e, OFFSET + p), Some(p));
    }
    assert_eq!(translate(e, 0x8020_0000), None);
}

#[test]
fn kernel_records_segment() {
    let layout = layout_with_top(OFFSET + 0x8800_0000);
    let mut space = AddressSpace::new(frames());
    space.kernel(&layout, KERNEL_FLAGS);
    assert_eq!(space.segments(), vec![(0x400_0000, 0x400_0000 + 0x8_8000)]);
    assert_eq!(space.root_ppn(), 0x80400);
}

#[test]
fn kernel_window_of_whole_gigabytes() {
    let layout = layout_with_top(OFFSET + 2 * GIB);
    let mut space = AddressSpace::new(frames());
    space.kernel(&layout, KERNEL_FLAGS);
    let e = space.entries();
    assert_eq!(e.iter().filter(|&&x| x != 0).count(), 2);
    assert_eq!(translate(e, OFFSET + 2 * GIB - 1), Some(2 * GIB - 1));
    assert_eq!(translate(e, OFFSET + 2 * GIB), None);
}

#[test]
fn kernel_with_empty_window_maps_nothing() {
    let layout = layout_with_top(OFFSET);
    let mut space = AddressSpace::new(frames());
    space.kernel(&layout, KERNEL_FLAGS);
    assert!(space.entries().iter().all(|&e| e == 0));
    assert!(space.segments().is_empty());
}
