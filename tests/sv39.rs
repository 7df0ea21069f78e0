use kernel::sv39::{build_entry, frame_entry, ppn_of, top_index, translate, KERNEL_FLAGS};

#[test]
fn entry_fields() {
    let e = build_entry(0xef, 0x80200);
    assert_eq!(e, (0x80200 << 10) | 0xef);
    assert_eq!(ppn_of(e), 0x80200);
    assert_eq!(ppn_of(0xffc0_0000_0000_03ff), 0);
}

#[test]
fn top_indices() {
    assert_eq!(top_index(0x8020_0000), 2);
    assert_eq!(top_index(0xffff_ffc0_0000_0000), 256);
    assert_eq!(top_index(0xffff_ffc0_8020_0000), 258);
    assert_eq!(top_index(0x3fff_ffff), 0);
}

#[test]
fn translate_needs_valid_aligned_leaf() {
    let mut table = vec![0u64; 512];
    table[1] = build_entry(KERNEL_FLAGS, 1 << 18);
    table[2] = build_entry(KERNEL_FLAGS & !1, 2 << 18);
    table[3] = build_entry(0x1, 3 << 18);
    table[4] = build_entry(KERNEL_FLAGS, (4 << 18) + 1);
    assert_eq!(translate(&table, 0x4000_1234), Some(0x4000_1234));
    assert_eq!(translate(&table, 0x8000_0000), None);
    assert_eq!(translate(&table, 0xc000_0000), None);
    assert_eq!(translate(&table, 0x1_0000_0000), None);
}

#[test]
fn frame_entry_sets_valid_bit() {
    assert_eq!(frame_entry(0, 0x80400), (0x80400 << 10) | 1);
    assert_eq!(frame_entry(0xee, 5), (5 << 10) | 0xef);
    assert_eq!(frame_entry(0xef, 5), (5 << 10) | 0xef);
    assert_eq!(ppn_of(frame_entry(0x6, 0x1234)), 0x1234);
}
