//! The boot page table: one top-level table that holds an identity mapping
//! of the 1 GiB window in which the kernel runs at its physical address (the
//! trampoline), and a linear mapping of the first 128 GiB of physical memory
//! at the kernel's offset.

use crate::sv39::{
    build_entry, entry_of, lemma_entry_fields, top_index, top_index_of, translate_top, GIB, KERNEL_FLAGS,
    PAGES_PER_GIB, PAGE_SIZE, TABLE_ENTRIES, VA_SPAN,
};
use vstd::arithmetic::div_mod::lemma_fundamental_div_mod_converse;
use vstd::prelude::*;

verus! {

/// Number of 1 GiB windows that the boot page table maps linearly.
pub const LINEAR_WINDOWS: u64 = 128;

/// The value of entry `i` of a boot page table whose entries were `prev`,
/// once the trampoline for `pbase` and the linear window at `offset` are
/// written, in that order.
pub open spec fn boot_entry(prev: Seq<u64>, pbase: int, offset: int, i: int) -> int {
    let t = top_index_of(pbase);
    let b = top_index_of(offset);
    if b <= i < b + LINEAR_WINDOWS {
        entry_of(KERNEL_FLAGS as int, (i - b) * PAGES_PER_GIB)
    } else if i == t {
        entry_of(KERNEL_FLAGS as int, t * PAGES_PER_GIB)
    } else {
        prev[i] as int
    }
}

/// The page that serves as top-level page table while the kernel moves from
/// its physical address to the linear window, and the entries to be written
/// into it.
pub struct BootPageTable {
    root: u64,
    entries: [u64; 512],
}

impl View for BootPageTable {
    type V = Seq<u64>;

    closed spec fn view(&self) -> Seq<u64> {
        self.entries@
    }
}

impl BootPageTable {
    /// Physical address of the table's page.
    pub closed spec fn root_addr(&self) -> int {
        self.root as int
    }

    /// The table has one entry per slot of a page table.
    pub open spec fn wf(&self) -> bool {
        self@.len() == TABLE_ENTRIES
    }

    /// An empty table held in the page at physical address `addr`.
    pub fn new(addr: u64) -> (r: Self)
        requires
            addr % PAGE_SIZE == 0,
            addr != 0,
        ensures
            r.wf(),
            r.root_addr() == addr,
            forall|i: int| 0 <= i < TABLE_ENTRIES ==> r@[i] == 0,
    {
        BootPageTable { root: addr, entries: [0u64; 512] }
    }

    /// Writes the trampoline entry, which maps the 1 GiB window holding
    /// `pbase` to itself, then the entries that map the first
    /// `LINEAR_WINDOWS` GiB of physical memory at `offset`, as far as the
    /// table reaches. Every entry carries `KERNEL_FLAGS`.
    pub fn map(&mut self, pbase: u64, offset: u64)
        requires
            old(self).wf(),
            offset % GIB == 0,
        ensures
            final(self).wf(),
            final(self).root_addr() == old(self).root_addr(),
            forall|i: int|
                0 <= i < TABLE_ENTRIES ==> final(self)@[i] as int == boot_entry(
                    old(self)@,
                    pbase as int,
                    offset as int,
                    i,
                ),
    {
        let t = top_index(pbase);
        let tramp = build_entry(KERNEL_FLAGS, t * PAGES_PER_GIB);
        self.entries[t as usize] = tramp;
        let b = top_index(offset);
        let mut i: u64 = 0;
        while i < LINEAR_WINDOWS && b + i < TABLE_ENTRIES
            invariant
                self.entries@.len() == TABLE_ENTRIES,
                old(self)@.len() == TABLE_ENTRIES,
                self.root == old(self).root,
                b < TABLE_ENTRIES,
                b == top_index_of(offset as int),
                t == top_index_of(pbase as int),
                i <= LINEAR_WINDOWS,
                b + i <= TABLE_ENTRIES,
                forall|j: int|
                    0 <= j < TABLE_ENTRIES ==> self.entries@[j] as int == if b <= j < b + i {
                        entry_of(KERNEL_FLAGS as int, (j - b) * PAGES_PER_GIB)
                    } else if j == t {
                        entry_of(KERNEL_FLAGS as int, t * PAGES_PER_GIB)
                    } else {
                        old(self)@[j] as int
                    },
            decreases LINEAR_WINDOWS - i,
        {
            let e = build_entry(KERNEL_FLAGS, i * PAGES_PER_GIB);
            self.entries[(b + i) as usize] = e;
            i += 1;
        }
    }

    /// Physical address of the table's page.
    pub fn root(&self) -> (r: u64)
        ensures
            r == self.root_addr(),
    {
        self.root
    }

    /// Physical page number of the table's page, as the translation control
    /// register names it.
    pub fn root_ppn(&self) -> (r: u64)
        ensures
            r == self.root_addr() / PAGE_SIZE as int,
    {
        self.root / PAGE_SIZE
    }

    /// The table's entries.
    pub fn entries(&self) -> (r: &[u64; 512])
        ensures
            r@ == self@,
    {
        &self.entries
    }
}

/// Once the boot page table is mapped, a virtual address `offset + p` in the
/// first `LINEAR_WINDOWS` GiB of the linear window translates to physical
/// address `p`, and the trampoline translates `pbase` to itself unless the
/// linear window covers its entry.
pub proof fn lemma_boot_translation(prev: Seq<u64>, table: Seq<u64>, pbase: int, offset: int, p: int)
    requires
        table.len() == TABLE_ENTRIES,
        forall|i: int| 0 <= i < TABLE_ENTRIES ==> table[i] as int == boot_entry(prev, pbase, offset, i),
        0 <= offset,
        offset % GIB as int == 0,
        top_index_of(offset) + LINEAR_WINDOWS <= TABLE_ENTRIES,
        0 <= p < LINEAR_WINDOWS * GIB,
    ensures
        translate_top(table, offset + p) == Some(p),
        0 <= pbase < VA_SPAN && !(top_index_of(offset) <= top_index_of(pbase) < top_index_of(offset)
            + LINEAR_WINDOWS) ==> translate_top(table, pbase) == Some(pbase),
{
    let g = GIB as int;
    let k = p / g;
    let r = p % g;
    let m = offset / g;
    let b = top_index_of(offset);
    lemma_fundamental_div_mod_converse(p, g, k, r);
    assert(p == k * g + r) by {
        vstd::arithmetic::div_mod::lemma_fundamental_div_mod(p, g);
    }
    assert(offset == m * g) by {
        vstd::arithmetic::div_mod::lemma_fundamental_div_mod(offset, g);
    }
    assert(0 <= k < LINEAR_WINDOWS) by {
        vstd::arithmetic::div_mod::lemma_div_is_ordered(p, (LINEAR_WINDOWS * GIB) as int - 1, g);
    }
    assert(offset + p == (m + k) * g + r) by (nonlinear_arith)
        requires
            offset == m * g,
            p == k * g + r,
    ;
    lemma_fundamental_div_mod_converse(offset + p, g, m + k, r);
    let q = m / 512;
    assert(m == q * 512 + b) by {
        vstd::arithmetic::div_mod::lemma_fundamental_div_mod(m, 512);
    }
    assert(m + k == q * 512 + (b + k));
    lemma_fundamental_div_mod_converse(m + k, 512, q, b + k);
    assert(top_index_of(offset + p) == b + k);
    lemma_entry_fields(KERNEL_FLAGS as int, k * PAGES_PER_GIB);
    lemma_fundamental_div_mod_converse(k * PAGES_PER_GIB, PAGES_PER_GIB as int, k, 0);
    assert(k * PAGES_PER_GIB * PAGE_SIZE + r == p) by (nonlinear_arith)
        requires
            p == k * g + r,
            g == GIB,
    ;
    if 0 <= pbase < VA_SPAN && !(b <= top_index_of(pbase) < b + LINEAR_WINDOWS) {
        let t = pbase / g;
        assert(0 <= t < 512) by {
            vstd::arithmetic::div_mod::lemma_div_is_ordered(pbase, VA_SPAN as int - 1, g);
        }
        lemma_fundamental_div_mod_converse(t, 512, 0, t);
        assert(top_index_of(pbase) == t);
        lemma_entry_fields(KERNEL_FLAGS as int, t * PAGES_PER_GIB);
        lemma_fundamental_div_mod_converse(t * PAGES_PER_GIB, PAGES_PER_GIB as int, t, 0);
        assert(t * PAGES_PER_GIB * PAGE_SIZE + pbase % g == pbase) by (nonlinear_arith)
            requires
                t == pbase / g,
                g == GIB,
        {
            vstd::arithmetic::div_mod::lemma_fundamental_div_mod(pbase, g);
        }
    }
}

/// Number of the trailing one bits of `x`.
pub open spec fn trailing_ones(x: int) -> int
    decreases x,
{
    if x > 0 && x % 2 == 1 {
        1 + trailing_ones(x / 2)
    } else {
        0
    }
}

/// Number of address-space identifier bits that the hart implements, from
/// the value read back from `satp` after all ASID bits were written as ones:
/// the run of ones at the bottom of the 16-bit ASID field.
pub fn asid_bits(satp: u64) -> (r: u64)
    ensures
        r == trailing_ones((satp as int / 0x1000_0000_0000) % 0x1_0000),
{
    let mut x: u64 = (satp / 0x1000_0000_0000) % 0x1_0000;
    let mut n: u64 = 0;
    while x % 2 == 1
        invariant
            x < 0x1_0000,
            n + trailing_ones(x as int) == trailing_ones((satp as int / 0x1000_0000_0000) % 0x1_0000),
            n + x < 0x1_0000,
        decreases x,
    {
        x = x / 2;
        n += 1;
    }
    n
}

} // verus!
