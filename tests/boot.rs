use kernel::boot::{asid_bits, BootPageTable, LINEAR_WINDOWS};
use kernel::sv39::{translate, GIB, KERNEL_FLAGS};

const OFFSET: u64 = 0xffff_ffc0_0000_0000;
const PBASE: u64 = 0x8020_0000;

fn mapped() -> BootPageTable {
    let mut table = BootPageTable::new(0x8034_a000);
    table.map(PBASE, OFFSET);
    table
}

#[test]
fn new_table_is_empty() {
    let table = BootPageTable::new(0x8034_a000);
    assert_eq!(table.root(), 0x8034_a000);
    assert_eq!(table.root_ppn(), 0x8034a);
    assert_eq!(table.entries().len(), 512usize);
    assert!(table.entries().iter().all(|&e| e == 0));
}

#[test]
fn map_writes_trampoline_and_linear_window() {
    let table = mapped();
    let e = table.entries();
    assert_eq!(KERNEL_FLAGS, 0xef);
    // trampoline: window 2 maps to itself
    assert_eq!(e[2], ((2u64 << 18) << 10) | 0xef);
    // linear window starts at entry 256 with physical gigabyte 0
    assert_eq!(e[256], 0xef);
    assert_eq!(e[257], ((1u64 << 18) << 10) | 0xef);
    assert_eq!(e[383], ((127u64 << 18) << 10) | 0xef);
    assert_eq!(e[384], 0);
    assert_eq!(e[0], 0);
    assert_eq!(e[255], 0);
    assert_eq!(e.iter().filter(|&&x| x != 0).count(), 1 + LINEAR_WINDOWS as usize);
}

#[test]
fn launch_scenario_translations() {
    let table = mapped();
    let e = table.entries();
    for p in [0u64, 0x8020_0000, 0x8765_4321, 0x1f_ffff_ffff] {
        assert_eq!(translate(e, OFFSET + p), Some(p));
    }
    assert_eq!(translate(e, PBASE), Some(PBASE));
    assert_eq!(translate(e, PBASE + 0x1234), Some(PBASE + 0x1234));
    assert_eq!(translate(e, OFFSET + 128 * GIB), None);
    assert_eq!(translate(e, 0), None);
}

#[test]
fn linear_window_stops_at_end_of_table() {
    let mut table = BootPageTable::new(0x1000);
    // offset in entry 500: only 12 windows fit
    table.map(PBASE, 500 * GIB);
    let e = table.entries();
    assert_eq!(e[500], 0xef);
    assert_eq!(e[511], ((11u64 << 18) << 10) | 0xef);
    assert_eq!(e.iter().filter(|&&x| x != 0).count(), 13);
}

#[test]
fn linear_window_overrides_trampoline() {
    let mut table = BootPageTable::new(0x1000);
    table.map(3 * GIB + 0x1000, 2 * GIB);
    let e = table.entries();
    // entry 3 belongs to the linear window: physical gigabyte 1
    assert_eq!(e[3], ((1u64 << 18) << 10) | 0xef);
}

#[test]
fn asid_bits_counts_trailing_ones() {
    assert_eq!(asid_bits(0xffffu64 << 44), 16);
    assert_eq!(asid_bits(0x00ffu64 << 44), 8);
    assert_eq!(asid_bits(0), 0);
    assert_eq!(asid_bits((0x8000_0000_0000_0000u64) | (0x1u64 << 44) | 0xfff), 1);
    assert_eq!(asid_bits(0x0effu64 << 44), 8);
}
