//! Address spaces rooted in a top-level Sv39 table, generic over the
//! manager that owns the lifecycle of physical frames.

use crate::layout::KernelLayout;
use crate::sv39::{
    build_entry, entry_flags, entry_of, entry_ppn, flags_valid, flags_valid_leaf,
    lemma_entry_fields, ppn_of, top_index, top_index_of, translate_top, FLAG_LIMIT, FLAG_V, GIB,
    PAGES_PER_GIB, PAGE_SIZE, TABLE_ENTRIES, VA_SPAN,
};
use rangemap::RangeSet;
use vstd::arithmetic::div_mod::{lemma_fundamental_div_mod, lemma_fundamental_div_mod_converse};
use vstd::prelude::*;

verus! {

#[verifier::external_type_specification]
#[verifier::external_body]
#[verifier::reject_recursive_types(T)]
pub struct ExRangeSet<T>(RangeSet<T>);

/// The values that a set of ranges holds.
pub uninterp spec fn range_set_values(s: RangeSet<u64>) -> Set<int>;

/// Relies on `rangemap::RangeSet::new`: a set that holds no range.
#[verifier::external_body]
fn empty_range_set() -> (r: RangeSet<u64>)
    ensures
        range_set_values(r) == Set::<int>::empty(),
{
    RangeSet::new()
}

/// Relies on `rangemap::RangeSet::insert`: afterwards the set holds the
/// values of `start..end` besides its own. It panics where `start >= end`.
#[verifier::external_body]
fn insert_range(s: &mut RangeSet<u64>, start: u64, end: u64)
    requires
        start < end,
    ensures
        range_set_values(*final(s)) == range_set_values(*old(s)).union(
            Set::new(|x: int| start <= x < end),
        ),
{
    s.insert(start..end)
}

/// Relies on `rangemap::RangeSet::iter`: the stored ranges, as
/// `(start, end)`, in ascending order; each is non-empty, no two overlap, and
/// together they hold exactly the set's values.
#[verifier::external_body]
fn range_list(s: &RangeSet<u64>) -> (r: Vec<(u64, u64)>)
    ensures
        forall|i: int| 0 <= i < r@.len() ==> #[trigger] r@[i].0 < r@[i].1,
        forall|i: int, j: int| 0 <= i < j < r@.len() ==> #[trigger] r@[i].1 <= #[trigger] r@[j].0,
        forall|x: int|
            range_set_values(*s).contains(x) <==> exists|i: int|
                0 <= i < r@.len() && #[trigger] r@[i].0 <= x < r@[i].1,
{
    s.iter().map(|range| (range.start, range.end)).collect()
}

/// The owner of the lifecycle of physical frames, which an address space
/// asks for the frames it needs: it never allocates frames itself.
///
/// `ppn_to_virt` and `virt_to_ppn` name, for the contracts, what `p_to_v`
/// and `v_to_p` return; an implementation gives them the same bodies.
/// `reachable` says which physical pages have a virtual address, and
/// `last_allocation` is the entry that `allocate` returned last.
pub trait PageManager {
    /// Whether physical page `ppn` has a virtual address under this manager.
    spec fn reachable(&self, ppn: u64) -> bool;

    /// The entry that the last call of `allocate` returned.
    spec fn last_allocation(&self) -> u64;

    /// The virtual address at which this manager makes physical page `ppn`
    /// accessible.
    spec fn ppn_to_virt(&self, ppn: u64) -> u64;

    /// The physical page that holds virtual address `vaddr`, as this manager
    /// sees memory.
    spec fn virt_to_ppn(&self, vaddr: u64) -> u64;

    /// Allocates `len` contiguous physical pages and returns a valid entry
    /// that points at the first of them and carries `flags`; that page has a
    /// virtual address.
    fn allocate(&mut self, flags: u64, len: u64) -> (pte: u64)
        requires
            flags < FLAG_LIMIT,
            len > 0,
        ensures
            flags_valid(entry_flags(pte as int)),
            entry_flags(pte as int) / 2 == flags as int / 2,
            final(self).reachable(entry_ppn(pte as int) as u64),
            final(self).last_allocation() == pte,
    ;

    /// Gives back the `len` pages that `pte` points at.
    fn deallocate(&mut self, pte: u64, len: u64);

    /// Shares the `len` pages that `pte` points at between two owners.
    fn share(&mut self, pte: u64, len: u64) -> (u64, u64);

    /// Gives the `len` pages that `pte` points at one owner only.
    fn exclude(&mut self, pte: u64, len: u64) -> u64;

    /// The virtual address at which physical page `ppn` is accessible;
    /// `v_to_p` takes it back to `ppn`.
    fn p_to_v(&self, ppn: u64) -> (r: u64)
        requires
            self.reachable(ppn),
        ensures
            r == self.ppn_to_virt(ppn),
            self.virt_to_ppn(r) == ppn,
    ;

    /// The physical page that holds virtual address `vaddr`, the address of
    /// some reachable page.
    fn v_to_p(&self, vaddr: u64) -> (r: u64)
        requires
            exists|ppn: u64| self.reachable(ppn) && #[trigger] self.ppn_to_virt(ppn) == vaddr,
        ensures
            r == self.virt_to_ppn(vaddr),
    ;
}

/// Number of 1 GiB windows needed to cover `len` bytes.
pub open spec fn windows(len: int) -> int {
    len / GIB as int + if len % GIB as int == 0 {
        0int
    } else {
        1int
    }
}

/// The virtual page number of the page that holds `v`, after Sv39 drops
/// the bits above its 39.
pub open spec fn vpn_floor(v: int) -> int {
    (v % VA_SPAN as int) / PAGE_SIZE as int
}

/// The number of the first virtual page that lies wholly at or above `v`,
/// after Sv39 drops the bits above its 39.
pub open spec fn vpn_ceil(v: int) -> int {
    (v % VA_SPAN as int + PAGE_SIZE - 1) / PAGE_SIZE as int
}

/// The value of entry `i` of a root table whose entries were `prev`, once the
/// linear window from `offset` to `top` is mapped with `flags`.
pub open spec fn kernel_entry(prev: Seq<u64>, offset: int, top: int, flags: int, i: int) -> int {
    let b = top_index_of(offset);
    if b <= i < b + windows(top - offset) {
        entry_of(flags, (i - b) * PAGES_PER_GIB)
    } else {
        prev[i] as int
    }
}

/// An address space: its root table, the ranges of virtual pages mapped in
/// it, and the manager of its frames.
pub struct AddressSpace<M: PageManager> {
    segments: RangeSet<u64>,
    root: u64,
    table: [u64; 512],
    manager: M,
    root_ppn: Ghost<u64>,
}

impl<M: PageManager> View for AddressSpace<M> {
    type V = Seq<u64>;

    /// The entries of the root table.
    closed spec fn view(&self) -> Seq<u64> {
        self.table@
    }
}

impl<M: PageManager> AddressSpace<M> {
    /// The virtual pages mapped in this space.
    pub closed spec fn mapped_pages(&self) -> Set<int> {
        range_set_values(self.segments)
    }

    /// Virtual address of the root table's page.
    pub closed spec fn root_spec(&self) -> u64 {
        self.root
    }

    /// Physical page number of the root table's page.
    pub closed spec fn root_ppn_spec(&self) -> u64 {
        self.root_ppn@
    }

    /// The manager of this space's frames.
    pub closed spec fn manager_spec(&self) -> M {
        self.manager
    }

    /// The root table has one entry per slot, and its page is where the
    /// manager puts the frame it allocated for it.
    pub open spec fn wf(&self) -> bool {
        &&& self@.len() == TABLE_ENTRIES
        &&& self.manager_spec().reachable(self.root_ppn_spec())
        &&& self.root_spec() == self.manager_spec().ppn_to_virt(self.root_ppn_spec())
        &&& self.manager_spec().virt_to_ppn(self.root_spec()) == self.root_ppn_spec()
    }

    /// An empty address space whose root table is one frame that `manager`
    /// allocates; the table starts with no valid entry.
    pub fn new(manager: M) -> (r: Self)
        ensures
            r.wf(),
            r.root_ppn_spec() == entry_ppn(r.manager_spec().last_allocation() as int),
            r.mapped_pages() == Set::<int>::empty(),
            forall|i: int| 0 <= i < TABLE_ENTRIES ==> r@[i] == 0,
    {
        let mut manager = manager;
        let pte = manager.allocate(FLAG_V, 1);
        let ppn = ppn_of(pte);
        let root = manager.p_to_v(ppn);
        AddressSpace {
            segments: empty_range_set(),
            root,
            table: [0u64; 512],
            manager,
            root_ppn: Ghost(ppn),
        }
    }

    /// Physical page number of the root table's page, which the translation
    /// control register names once this space is installed.
    pub fn root_ppn(&self) -> (r: u64)
        requires
            self.wf(),
        ensures
            r == self.root_ppn_spec(),
    {
        assert(self.manager.reachable(self.root_ppn@) && self.manager.ppn_to_virt(self.root_ppn@)
            == self.root);
        self.manager.v_to_p(self.root)
    }

    /// Maps the linear window of `layout`, from its offset to its top, with
    /// top-level superpage entries carrying `flags`: window `i` from the
    /// offset's entry on maps physical gigabyte `i`, as far as the table
    /// reaches. The window's virtual pages are recorded as mapped.
    pub fn kernel(&mut self, layout: &KernelLayout, flags: u64)
        requires
            old(self).wf(),
            layout.linear_offset() % GIB as int == 0,
            layout.linear_offset() <= layout.linear_top(),
            flags < FLAG_LIMIT,
        ensures
            final(self).wf(),
            final(self).root_spec() == old(self).root_spec(),
            final(self).root_ppn_spec() == old(self).root_ppn_spec(),
            final(self).manager_spec() == old(self).manager_spec(),
            forall|i: int|
                0 <= i < TABLE_ENTRIES ==> final(self)@[i] as int == kernel_entry(
                    old(self)@,
                    layout.linear_offset(),
                    layout.linear_top(),
                    flags as int,
                    i,
                ),
            ({
                let lo = vpn_floor(layout.linear_offset());
                let hi = vpn_ceil(layout.linear_top());
                final(self).mapped_pages() == if lo < hi {
                    old(self).mapped_pages().union(Set::new(|x: int| lo <= x < hi))
                } else {
                    old(self).mapped_pages()
                }
            }),
    {
        let offset = layout.offset();
        let top = layout.top();
        let lo = (offset % VA_SPAN) / PAGE_SIZE;
        let hi = ((top % VA_SPAN) + (PAGE_SIZE - 1)) / PAGE_SIZE;
        if lo < hi {
            insert_range(&mut self.segments, lo, hi);
        }
        let len = top - offset;
        let n: u64 = len / GIB + if len % GIB == 0 {
            0u64
        } else {
            1u64
        };
        let b = top_index(offset);
        let ghost prev = self.table@;
        let ghost segments = self.segments;
        let mut i: u64 = 0;
        while i < n && b + i < TABLE_ENTRIES
            invariant
                self.table@.len() == TABLE_ENTRIES,
                prev.len() == TABLE_ENTRIES,
                self.root == old(self).root,
                self.root_ppn == old(self).root_ppn,
                self.manager == old(self).manager,
                self.segments == segments,
                b < TABLE_ENTRIES,
                b == top_index_of(offset as int),
                n == windows(len as int),
                i <= n,
                b + i <= TABLE_ENTRIES,
                flags < FLAG_LIMIT,
                forall|j: int|
                    0 <= j < TABLE_ENTRIES ==> self.table@[j] as int == if b <= j < b + i {
                        entry_of(flags as int, (j - b) * PAGES_PER_GIB)
                    } else {
                        prev[j] as int
                    },
            decreases n - i,
        {
            let e = build_entry(flags, i * PAGES_PER_GIB);
            self.table[(b + i) as usize] = e;
            i += 1;
        }
    }

    /// Virtual address of the root table's page.
    pub fn root(&self) -> (r: u64)
        ensures
            r == self.root_spec(),
    {
        self.root
    }

    /// The entries of the root table.
    pub fn entries(&self) -> (r: &[u64; 512])
        ensures
            r@ == self@,
    {
        &self.table
    }

    /// The ranges of mapped virtual page numbers, as `(start, end)` in
    /// ascending order, apart from one another.
    pub fn segments(&self) -> (r: Vec<(u64, u64)>)
        ensures
            forall|i: int| 0 <= i < r@.len() ==> #[trigger] r@[i].0 < r@[i].1,
            forall|i: int, j: int| 0 <= i < j < r@.len() ==> #[trigger] r@[i].1 <= #[trigger] r@[j].0,
            forall|x: int|
                self.mapped_pages().contains(x) <==> exists|i: int|
                    0 <= i < r@.len() && #[trigger] r@[i].0 <= x < r@[i].1,
    {
        range_list(&self.segments)
    }

    /// The manager of this space's frames.
    pub fn manager(&self) -> (r: &M)
        ensures
            *r == self.manager_spec(),
    {
        &self.manager
    }
}

/// After `kernel`, with flags that make a valid leaf and a window that the
/// table holds whole, walking the root table at any virtual address `v` from
/// the offset up to the top gives physical address `v - offset`.
pub proof fn lemma_kernel_translation(
    prev: Seq<u64>,
    table: Seq<u64>,
    offset: int,
    top: int,
    flags: int,
    v: int,
)
    requires
        table.len() == TABLE_ENTRIES,
        forall|i: int|
            0 <= i < TABLE_ENTRIES ==> table[i] as int == kernel_entry(prev, offset, top, flags, i),
        0 <= offset <= v < top,
        offset % GIB as int == 0,
        0 <= flags < FLAG_LIMIT,
        flags_valid_leaf(flags),
        top_index_of(offset) + windows(top - offset) <= TABLE_ENTRIES,
    ensures
        translate_top(table, v) == Some(v - offset),
{
    let g = GIB as int;
    let p = v - offset;
    let len = top - offset;
    let k = p / g;
    let r = p % g;
    let m = offset / g;
    let b = top_index_of(offset);
    lemma_fundamental_div_mod(p, g);
    lemma_fundamental_div_mod(len, g);
    lemma_fundamental_div_mod(offset, g);
    assert(k < windows(len)) by (nonlinear_arith)
        requires
            p == k * g + r,
            len == (len / g) * g + len % g,
            0 <= r < g,
            0 <= len % g < g,
            p < len,
            g > 0,
            windows(len) == len / g + if len % g == 0 {
                0int
            } else {
                1int
            },
    ;
    assert(0 <= k) by (nonlinear_arith)
        requires
            p >= 0,
            g > 0,
            k == p / g,
    ;
    assert(offset + p == (m + k) * g + r) by (nonlinear_arith)
        requires
            offset == m * g + offset % g,
            offset % g == 0,
            p == k * g + r,
    ;
    lemma_fundamental_div_mod_converse(v, g, m + k, r);
    let q = m / 512;
    lemma_fundamental_div_mod(m, 512);
    assert(m + k == q * 512 + (b + k));
    lemma_fundamental_div_mod_converse(m + k, 512, q, b + k);
    assert(top_index_of(v) == b + k);
    lemma_entry_fields(flags, k * PAGES_PER_GIB);
    lemma_fundamental_div_mod_converse(k * PAGES_PER_GIB, PAGES_PER_GIB as int, k, 0);
    assert(k * PAGES_PER_GIB * PAGE_SIZE + r == p) by (nonlinear_arith)
        requires
            p == k * g + r,
            g == GIB,
    ;
}

} // verus!
