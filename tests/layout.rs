use kernel::layout::{KernelLayout, BOOT_STACK_SIZE};
use kernel::linker::{MemInfo, START};

const OFFSET: u64 = 0xffff_ffc0_0000_0000;

fn located() -> KernelLayout {
    let mut layout = KernelLayout::new();
    layout.locate(0x8020_0000, 0x8030_0000, 0x8034_5678);
    layout
}

#[test]
fn mem_info_init_is_all_ones() {
    let info = MemInfo::init();
    assert_eq!(info.offset, u64::MAX);
    assert_eq!(info.top, u64::MAX);
    assert_eq!(info.start, u64::MAX);
    assert_eq!(info.bss, u64::MAX);
    assert_eq!(info.end, u64::MAX);
}

#[test]
fn mem_info_locate_moves_by_offset() {
    let info = MemInfo::locate(0x8020_0000, 0x8030_0000, 0x8034_5678);
    assert_eq!(info.offset, OFFSET);
    assert_eq!(info.top, 0);
    assert_eq!(info.start, START);
    assert_eq!(info.bss, 0xffff_ffc0_8030_0000);
    assert_eq!(info.end, 0xffff_ffc0_8034_5678);
}

#[test]
fn layout_new_is_unlocated() {
    let layout = KernelLayout::new();
    assert_eq!(layout.offset(), u64::MAX);
    assert_eq!(layout.start(), u64::MAX);
    assert_eq!(layout.top(), u64::MAX);
}

#[test]
fn layout_locate_sets_addresses() {
    let layout = located();
    assert_eq!(layout.offset(), OFFSET);
    assert_eq!(layout.start(), START);
    assert_eq!(layout.bss(), 0xffff_ffc0_8030_0000);
    assert_eq!(layout.end(), 0xffff_ffc0_8034_5678);
    assert_eq!(layout.top(), u64::MAX);
}

#[test]
fn boot_pt_root_follows_boot_stack() {
    let layout = located();
    // end + 16 KiB = ...8034_9678, rounded up to the next page
    assert_eq!(BOOT_STACK_SIZE, 0x4000);
    assert_eq!(layout.boot_pt_root(), 0xffff_ffc0_8034_a000);
}

#[test]
fn boot_pt_root_of_aligned_end_is_end_plus_stack() {
    let mut layout = KernelLayout::new();
    layout.locate(0x8020_0000, 0x8030_0000, 0x8040_0000);
    assert_eq!(layout.boot_pt_root(), 0xffff_ffc0_8040_4000);
}

#[test]
fn set_top_records_top() {
    let mut layout = located();
    layout.set_top(0xffff_ffc0_8800_0000);
    assert_eq!(layout.top(), 0xffff_ffc0_8800_0000);
    assert_eq!(layout.offset(), OFFSET);
}

#[test]
fn p_to_v_and_v_to_p() {
    let layout = located();
    assert_eq!(layout.p_to_v(0x8020_0000), START);
    assert_eq!(layout.v_to_p(START), 0x8020_0000);
    assert_eq!(layout.p_to_v(0), OFFSET);
    assert_eq!(layout.v_to_p(OFFSET), 0);
}

#[test]
fn linear_round_trip() {
    let layout = located();
    for p in [0u64, 1, 0x8000_0000, 0x8765_4321, 0x1f_ffff_ffff] {
        assert_eq!(layout.v_to_p(layout.p_to_v(p)), p);
    }
    for v in [OFFSET, START, 0xffff_ffc0_8800_0123, u64::MAX] {
        assert_eq!(layout.p_to_v(layout.v_to_p(v)), v);
    }
    for ppn in [0u64, 0x80200, 0x8_7654] {
        assert_eq!(layout.v_to_ppn(layout.ppn_to_v(ppn)), ppn);
    }
    assert_eq!(layout.ppn_to_v(0x80200), START);
    assert_eq!(layout.v_to_ppn(START + 0xfff), 0x80200);
}
