//! The Sv39 page-table format: entries, page numbers and the walk of a
//! top-level table whose leaves are 1 GiB superpages.

use vstd::arithmetic::div_mod::lemma_fundamental_div_mod_converse;
use vstd::prelude::*;

verus! {

/// Number of bits of the offset inside a base page.
pub const PAGE_BITS: u64 = 12;

/// Bytes in a base page.
pub const PAGE_SIZE: u64 = 0x1000;

/// Entries in one page table.
pub const TABLE_ENTRIES: u64 = 512;

/// Bytes covered by one top-level leaf: a 1 GiB superpage.
pub const GIB: u64 = 0x4000_0000;

/// Base pages in one 1 GiB superpage.
pub const PAGES_PER_GIB: u64 = 0x4_0000;

/// Exclusive bound of a physical page number: Sv39 entries hold 44 bits of it.
pub const PPN_LIMIT: u64 = 0x1000_0000_0000;

/// Exclusive bound of the flag bits, the low ten bits of an entry.
pub const FLAG_LIMIT: u64 = 0x400;

/// Valid.
pub const FLAG_V: u64 = 0x01;

/// Readable.
pub const FLAG_R: u64 = 0x02;

/// Writable.
pub const FLAG_W: u64 = 0x04;

/// Executable.
pub const FLAG_X: u64 = 0x08;

/// Accessible from user mode.
pub const FLAG_U: u64 = 0x10;

/// Global: present in every address space.
pub const FLAG_G: u64 = 0x20;

/// Accessed.
pub const FLAG_A: u64 = 0x40;

/// Dirty.
pub const FLAG_D: u64 = 0x80;

/// `DAG_XWRV`: the flags of the kernel's linear mapping.
pub const KERNEL_FLAGS: u64 = 0xef;

/// Bytes of the virtual address space that Sv39 translates.
pub const VA_SPAN: u64 = 0x80_0000_0000;

/// Index, in the top-level table, of the entry that translates `va`.
pub open spec fn top_index_of(va: int) -> int {
    (va / GIB as int) % TABLE_ENTRIES as int
}

/// The entry with the flag bits `flags` that points at physical page `ppn`.
pub open spec fn entry_of(flags: int, ppn: int) -> int {
    ppn * FLAG_LIMIT as int + flags
}

/// The flag bits of an entry.
pub open spec fn entry_flags(e: int) -> int {
    e % FLAG_LIMIT as int
}

/// The physical page number held by an entry.
pub open spec fn entry_ppn(e: int) -> int {
    (e / FLAG_LIMIT as int) % PPN_LIMIT as int
}

/// Whether flag bits mark a valid entry.
pub open spec fn flags_valid(flags: int) -> bool {
    flags % 2 == 1
}

/// Whether flag bits mark a leaf: one of R, W or X is set.
pub open spec fn flags_leaf(flags: int) -> bool {
    (flags / 2) % 8 != 0
}

/// Whether flag bits mark a valid leaf.
pub open spec fn flags_valid_leaf(flags: int) -> bool {
    flags_valid(flags) && flags_leaf(flags)
}

/// The physical address that a top-level walk of `table` gives for `va`,
/// or `None` where the walk faults at that level or goes on to a lower one.
///
/// A valid leaf at the top level is a 1 GiB superpage: its page number must
/// be a multiple of `PAGES_PER_GIB`, and the low 30 bits of `va` are the
/// offset inside it.
pub open spec fn translate_top(table: Seq<u64>, va: int) -> Option<int> {
    let e = table[top_index_of(va)] as int;
    if flags_valid_leaf(entry_flags(e)) && entry_ppn(e) % PAGES_PER_GIB as int == 0 {
        Some(entry_ppn(e) * PAGE_SIZE as int + va % GIB as int)
    } else {
        None
    }
}

/// The entry built from `flags` and `ppn` gives both back.
pub proof fn lemma_entry_fields(flags: int, ppn: int)
    requires
        0 <= flags < FLAG_LIMIT,
        0 <= ppn < PPN_LIMIT,
    ensures
        entry_flags(entry_of(flags, ppn)) == flags,
        entry_ppn(entry_of(flags, ppn)) == ppn,
{
    lemma_fundamental_div_mod_converse(entry_of(flags, ppn), FLAG_LIMIT as int, ppn, flags);
    lemma_fundamental_div_mod_converse(ppn, PPN_LIMIT as int, 0, ppn);
}

/// Index, in the top-level table, of the entry that translates `va`.
pub fn top_index(va: u64) -> (r: u64)
    ensures
        r as int == top_index_of(va as int),
        r < TABLE_ENTRIES,
{
    (va / GIB) % TABLE_ENTRIES
}

/// The entry with the flag bits `flags` that points at physical page `ppn`.
pub fn build_entry(flags: u64, ppn: u64) -> (r: u64)
    requires
        flags < FLAG_LIMIT,
        ppn < PPN_LIMIT,
    ensures
        r as int == entry_of(flags as int, ppn as int),
        entry_flags(r as int) == flags as int,
        entry_ppn(r as int) == ppn as int,
{
    proof {
        lemma_entry_fields(flags as int, ppn as int);
    }
    ppn * FLAG_LIMIT + flags
}

/// Walks the top level of `table` for `va`: the physical address that a
/// 1 GiB superpage leaf gives, or `None` where the walk faults at that level
/// or goes on to a lower one.
pub fn translate(table: &[u64], va: u64) -> (r: Option<u64>)
    requires
        table@.len() == TABLE_ENTRIES,
    ensures
        r matches Some(p) ==> translate_top(table@, va as int) == Some(p as int),
        r is None ==> translate_top(table@, va as int) is None,
{
    let e = table[top_index(va) as usize];
    let flags = e % FLAG_LIMIT;
    let ppn = ppn_of(e);
    if flags % 2 == 1 && (flags / 2) % 8 != 0 && ppn % PAGES_PER_GIB == 0 {
        Some(ppn * PAGE_SIZE + va % GIB)
    } else {
        None
    }
}

/// The valid entry that points at physical page `ppn` and carries `flags`,
/// with the valid bit set whether or not `flags` has it.
pub fn frame_entry(flags: u64, ppn: u64) -> (r: u64)
    requires
        flags < FLAG_LIMIT,
        ppn < PPN_LIMIT,
    ensures
        flags_valid(entry_flags(r as int)),
        entry_flags(r as int) / 2 == flags as int / 2,
        entry_ppn(r as int) == ppn as int,
{
    let valid = if flags % 2 == 1 {
        flags
    } else {
        flags + FLAG_V
    };
    build_entry(valid, ppn)
}

/// The physical page number held by entry `e`.
pub fn ppn_of(e: u64) -> (r: u64)
    ensures
        r as int == entry_ppn(e as int),
{
    (e / FLAG_LIMIT) % PPN_LIMIT
}

} // verus!
