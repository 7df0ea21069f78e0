//! Physical memory discovery: which parts of the memory regions that the
//! device tree reports are handed to the frame allocator, and how far the
//! linear window must reach.
//!
//! A region that holds the kernel's physical start is handed over only from
//! the first page after the boot page table on: its prefix holds the
//! firmware, the kernel image, the boot stack and the boot page table. Any
//! other region is handed over whole. Regions are handed over at their
//! linear virtual addresses.

use crate::layout::KernelLayout;
use crate::sv39::PAGE_SIZE;
use vstd::prelude::*;

verus! {

/// Physical address from which the frame allocator receives reported region
/// `[start, end)`; it receives the region up to `end`.
pub open spec fn usable_start(layout: KernelLayout, start: int, end: int) -> int {
    let kernel = layout.phys_of(layout.image_start());
    if start <= kernel < end {
        layout.phys_of(layout.free_start())
    } else {
        start
    }
}

/// Whether virtual address `x` lies in what reported region `region`, a
/// physical `(start, end)`, gives to the frame allocator.
pub open spec fn gives(layout: KernelLayout, region: (u64, u64), x: int) -> bool {
    layout.virt_of(usable_start(layout, region.0 as int, region.1 as int)) <= x < layout.virt_of(
        region.1 as int,
    )
}

/// Whether virtual address `x` lies in what one of `reported` gives to the
/// frame allocator.
pub open spec fn reported_gives(layout: KernelLayout, reported: Seq<(u64, u64)>, x: int) -> bool {
    exists|k: int| 0 <= k < reported.len() && #[trigger] gives(layout, reported[k], x)
}

/// Whether `x` lies in `region`, a `(start, size)`.
pub open spec fn in_region(region: (u64, u64), x: int) -> bool {
    region.0 <= x < region.0 + region.1
}

/// Whether `x` lies in one of `regions`.
pub open spec fn covered(regions: Seq<(u64, u64)>, x: int) -> bool {
    exists|j: int| 0 <= j < regions.len() && #[trigger] in_region(regions[j], x)
}

/// Whether two physical `(start, end)` regions share no address.
pub open spec fn apart(a: (u64, u64), b: (u64, u64)) -> bool {
    a.1 <= b.0 || b.1 <= a.0 || a.1 <= a.0 || b.1 <= b.0
}

/// The regions handed to the frame allocator, as virtual `(start, size)`,
/// and the highest linear end of a reported region. Nothing here
/// allocates: discovery runs before the heap exists.
pub struct FrameRegions {
    layout: KernelLayout,
    regions: Ghost<Seq<(u64, u64)>>,
    top: u64,
    reported: Ghost<Seq<(u64, u64)>>,
    origin: Ghost<Seq<int>>,
}

impl FrameRegions {
    /// The layout by which physical addresses are moved to the linear window.
    pub closed spec fn layout_spec(&self) -> KernelLayout {
        self.layout
    }

    /// The physical `(start, end)` regions reported so far, in order.
    pub closed spec fn reported(&self) -> Seq<(u64, u64)> {
        self.reported@
    }

    /// The regions handed to the frame allocator, as virtual `(start, size)`.
    pub closed spec fn regions_spec(&self) -> Seq<(u64, u64)> {
        self.regions@
    }

    /// The highest linear end of a region reported so far, or 0 if there is
    /// none.
    pub closed spec fn top_spec(&self) -> int {
        self.top as int
    }

    /// Index of the reported region from which region `j` comes.
    pub closed spec fn origin_of(&self, j: int) -> int {
        self.origin@[j]
    }

    /// Every region is the non-empty part that the reported region it comes
    /// from gives, regions come in the order of their reported regions, the
    /// regions cover exactly what the reported ones give, and `top` is the
    /// highest linear end of a reported region, or 0 if none was reported.
    pub closed spec fn wf(&self) -> bool {
        let regions = self.regions@;
        let reported = self.reported@;
        let layout = self.layout;
        &&& layout.located()
        &&& regions.len() == self.origin@.len()
        &&& forall|j: int|
            0 <= j < regions.len() ==> {
                let k = #[trigger] self.origin@[j];
                &&& 0 <= k < reported.len()
                &&& regions[j].1 > 0
                &&& regions[j].0 + regions[j].1 <= u64::MAX
                &&& regions[j].0 == layout.virt_of(
                    usable_start(layout, reported[k].0 as int, reported[k].1 as int),
                )
                &&& regions[j].0 + regions[j].1 == layout.virt_of(reported[k].1 as int)
            }
        &&& forall|i: int, j: int|
            0 <= i < j < regions.len() ==> #[trigger] self.origin@[i] < #[trigger] self.origin@[j]
        &&& forall|x: int| covered(regions, x) <==> reported_gives(layout, reported, x)
        &&& forall|k: int|
            0 <= k < reported.len() && (#[trigger] reported[k]).0 <= reported[k].1 ==> layout.virt_of(
                reported[k].1 as int,
            ) <= self.top
        &&& self.top == 0 || exists|k: int|
            0 <= k < reported.len() && (#[trigger] reported[k]).0 <= reported[k].1
                && layout.virt_of(reported[k].1 as int) == self.top
    }

    /// Nothing reported yet, for a located layout.
    pub fn new(layout: &KernelLayout) -> (r: Self)
        requires
            layout.located(),
        ensures
            r.wf(),
            r.layout_spec() == *layout,
            r.reported() == Seq::<(u64, u64)>::empty(),
            r.regions_spec() == Seq::<(u64, u64)>::empty(),
            r.top_spec() == 0,
    {
        FrameRegions {
            layout: *layout,
            regions: Ghost(Seq::empty()),
            top: 0,
            reported: Ghost(Seq::empty()),
            origin: Ghost(Seq::empty()),
        }
    }

    /// Takes in the reported physical region `[start, end)`: returns what it
    /// gives to the frame allocator as one more region, `(start, size)` at
    /// virtual addresses, unless that is empty, and raises the top to the
    /// region's linear end, whether or not anything is handed over.
    pub fn add(&mut self, start: u64, end: u64) -> (r: Option<(u64, u64)>)
        requires
            old(self).wf(),
            old(self).layout_spec().virt_of(end as int) <= u64::MAX,
        ensures
            final(self).wf(),
            final(self).layout_spec() == old(self).layout_spec(),
            final(self).reported() == old(self).reported().push((start, end)),
            ({
                let layout = old(self).layout_spec();
                let lo = layout.virt_of(usable_start(layout, start as int, end as int));
                let hi = layout.virt_of(end as int);
                if lo < hi {
                    &&& r == Some((lo as u64, (hi - lo) as u64))
                    &&& final(self).regions_spec() == old(self).regions_spec().push(
                        (lo as u64, (hi - lo) as u64),
                    )
                } else {
                    &&& r is None
                    &&& final(self).regions_spec() == old(self).regions_spec()
                }
            }),
            final(self).top_spec() == if start <= end && old(self).layout_spec().virt_of(end as int)
                > old(self).top_spec() {
                old(self).layout_spec().virt_of(end as int)
            } else {
                old(self).top_spec()
            },
    {
        let layout = self.layout;
        let ghost old_regions = self.regions@;
        let ghost old_reported = self.reported@;
        let ghost old_top = self.top;
        let ghost lo_spec = layout.virt_of(usable_start(layout, start as int, end as int));
        let ghost hi_spec = layout.virt_of(end as int);
        let kernel = layout.v_to_p(layout.start());
        let hi = layout.p_to_v(end);
        let lo = if start <= kernel && kernel < end {
            layout.boot_pt_root() + PAGE_SIZE
        } else if start < end {
            layout.p_to_v(start)
        } else {
            hi
        };
        assert(start < end ==> lo == lo_spec);
        assert(start >= end ==> lo_spec >= hi_spec);
        let r = if lo < hi {
            self.regions = Ghost(old_regions.push((lo, (hi - lo) as u64)));
            self.origin = Ghost(self.origin@.push(old_reported.len() as int));
            Some((lo, hi - lo))
        } else {
            None
        };
        if start <= end && hi > self.top {
            self.top = hi;
        }
        self.reported = Ghost(old_reported.push((start, end)));
        proof {
            let regions = self.regions@;
            let reported = self.reported@;
            assert(reported[old_reported.len() as int] == (start, end));
            assert forall|x: int| covered(regions, x) <==> reported_gives(layout, reported, x) by {
                if covered(regions, x) {
                    let j = choose|j: int| 0 <= j < regions.len() && #[trigger] in_region(regions[j], x);
                    if j < old_regions.len() {
                        assert(regions[j] == old_regions[j]);
                        assert(covered(old_regions, x));
                        let k = choose|k: int|
                            0 <= k < old_reported.len() && #[trigger] gives(layout, old_reported[k], x);
                        assert(reported[k] == old_reported[k]);
                    } else {
                        assert(gives(layout, reported[old_reported.len() as int], x));
                    }
                }
                if reported_gives(layout, reported, x) {
                    let k = choose|k: int|
                        0 <= k < reported.len() && #[trigger] gives(layout, reported[k], x);
                    if k < old_reported.len() {
                        assert(reported[k] == old_reported[k]);
                        assert(reported_gives(layout, old_reported, x));
                        assert(covered(old_regions, x));
                        let j = choose|j: int|
                            0 <= j < old_regions.len() && #[trigger] in_region(old_regions[j], x);
                        assert(regions[j] == old_regions[j]);
                        assert(in_region(regions[j], x));
                    } else {
                        assert(lo < hi);
                        assert(in_region(regions[old_regions.len() as int], x));
                    }
                }
            }
            if lo < hi {
                let m = old_regions.len() as int;
                assert(regions[m].0 + regions[m].1 == hi);
            } else {
                assert(regions == old_regions);
            }
            assert(forall|j: int| 0 <= j < old_regions.len() ==> regions[j] == old_regions[j]);
            assert(forall|k: int| 0 <= k < old_reported.len() ==> reported[k] == old_reported[k]);
            let n = old_reported.len() as int;
            assert(start <= end ==> layout.virt_of(reported[n].1 as int) <= self.top);
            assert(forall|k: int|
                0 <= k < reported.len() && (#[trigger] reported[k]).0 <= reported[k].1
                    ==> layout.virt_of(reported[k].1 as int) <= self.top);
            if self.top != old_top {
                assert(reported[n].0 <= reported[n].1 && layout.virt_of(reported[n].1 as int)
                    == self.top);
            }
            if old_top != 0 && self.top == old_top {
                let k = choose|k: int|
                    0 <= k < old_reported.len() && (#[trigger] old_reported[k]).0 <= old_reported[k].1
                        && layout.virt_of(old_reported[k].1 as int) == old_top;
                assert(reported[k] == old_reported[k]);
            }

        }
        r
    }

    /// The highest linear end of a region reported so far, or 0 if there is
    /// none: the top of the linear window.
    pub fn top(&self) -> (r: u64)
        ensures
            r == self.top_spec(),
    {
        self.top
    }
}

/// Whether `region`, a virtual `(start, size)`, lies in the linear image of
/// `reported`, a physical `(start, end)`.
pub open spec fn within(layout: KernelLayout, region: (u64, u64), reported: (u64, u64)) -> bool {
    layout.virt_of(reported.0 as int) <= region.0 && region.0 + region.1 <= layout.virt_of(
        reported.1 as int,
    )
}

/// The regions handed to the frame allocator cover exactly what the
/// reported regions give: all of each reported region but the prefix up to
/// the end of the boot page table in the region that holds the kernel. Each
/// lies in the linear image of a reported region and ends at or below the
/// top. Where the reported regions do not overlap, no two handed-over
/// regions overlap, and each lies in the image of exactly one reported
/// region.
pub proof fn lemma_frame_regions(fr: &FrameRegions)
    requires
        fr.wf(),
        forall|a: int, b: int|
            0 <= a < b < fr.reported().len() ==> apart(
                #[trigger] fr.reported()[a],
                #[trigger] fr.reported()[b],
            ),
    ensures
        forall|x: int|
            covered(fr.regions_spec(), x) <==> reported_gives(fr.layout_spec(), fr.reported(), x),
        forall|j: int|
            0 <= j < fr.regions_spec().len() ==> {
                let region = #[trigger] fr.regions_spec()[j];
                &&& region.1 > 0
                &&& region.0 + region.1 <= fr.top_spec()
                &&& exists|k: int|
                    0 <= k < fr.reported().len() && within(
                        fr.layout_spec(),
                        region,
                        #[trigger] fr.reported()[k],
                    )
            },
        forall|j: int, k1: int, k2: int|
            0 <= j < fr.regions_spec().len() && 0 <= k1 < fr.reported().len() && 0 <= k2
                < fr.reported().len() && within(
                fr.layout_spec(),
                #[trigger] fr.regions_spec()[j],
                #[trigger] fr.reported()[k1],
            ) && within(fr.layout_spec(), fr.regions_spec()[j], #[trigger] fr.reported()[k2])
                ==> k1 == k2,
        forall|i: int, j: int|
            0 <= i < j < fr.regions_spec().len() ==> {
                let a = #[trigger] fr.regions_spec()[i];
                let b = #[trigger] fr.regions_spec()[j];
                a.0 + a.1 <= b.0 || b.0 + b.1 <= a.0
            },
{
    let layout = fr.layout_spec();
    let regions = fr.regions_spec();
    let reported = fr.reported();
    assert forall|j: int| 0 <= j < regions.len() implies {
        let region = #[trigger] regions[j];
        &&& region.1 > 0
        &&& region.0 + region.1 <= fr.top_spec()
        &&& exists|k: int| 0 <= k < reported.len() && within(layout, region, #[trigger] reported[k])
    } by {
        let k = fr.origin_of(j);
        let rk = reported[k];
        assert(usable_start(layout, rk.0 as int, rk.1 as int) >= rk.0);
        assert(within(layout, regions[j], reported[k]));
    }
    assert forall|j: int, k1: int, k2: int|
        0 <= j < regions.len() && 0 <= k1 < reported.len() && 0 <= k2 < reported.len() && within(
            layout,
            #[trigger] regions[j],
            #[trigger] reported[k1],
        ) && within(layout, regions[j], #[trigger] reported[k2]) implies k1 == k2 by {
        if k1 < k2 {
            assert(apart(reported[k1], reported[k2]));
        } else if k2 < k1 {
            assert(apart(reported[k2], reported[k1]));
        }
    }
    assert forall|i: int, j: int| 0 <= i < j < regions.len() implies {
        let a = #[trigger] regions[i];
        let b = #[trigger] regions[j];
        a.0 + a.1 <= b.0 || b.0 + b.1 <= a.0
    } by {
        let ki = fr.origin_of(i);
        let kj = fr.origin_of(j);
        assert(ki < kj);
        assert(apart(reported[ki], reported[kj]));
        let ri = reported[ki];
        let rj = reported[kj];
        assert(usable_start(layout, ri.0 as int, ri.1 as int) >= ri.0);
        assert(usable_start(layout, rj.0 as int, rj.1 as int) >= rj.0);
    }
}

/// In the reported region `k` that holds the kernel's physical start and
/// reaches past the boot page table: nothing from the region's start up to
/// the end of the boot page table (firmware, kernel image, boot stack, boot
/// page table) is handed to the frame allocator, everything from there to
/// the region's end is, and the top reaches the region's linear end, where
/// the reported regions do not overlap.
pub proof fn lemma_kernel_region(fr: &FrameRegions, k: int)
    requires
        fr.wf(),
        forall|a: int, b: int|
            0 <= a < b < fr.reported().len() ==> apart(
                #[trigger] fr.reported()[a],
                #[trigger] fr.reported()[b],
            ),
        0 <= k < fr.reported().len(),
        fr.reported()[k].0 <= fr.layout_spec().phys_of(fr.layout_spec().image_start())
            < fr.reported()[k].1,
        fr.layout_spec().phys_of(fr.layout_spec().free_start()) <= fr.reported()[k].1,
    ensures
        forall|x: int|
            fr.layout_spec().virt_of(fr.reported()[k].0 as int) <= x < fr.layout_spec().free_start()
                ==> !covered(fr.regions_spec(), x),
        forall|x: int|
            fr.layout_spec().free_start() <= x < fr.layout_spec().virt_of(fr.reported()[k].1 as int)
                ==> covered(fr.regions_spec(), x),
        fr.layout_spec().virt_of(fr.reported()[k].1 as int) <= fr.top_spec(),
{
    let layout = fr.layout_spec();
    let reported = fr.reported();
    let rk = reported[k];
    assert forall|x: int|
        layout.virt_of(rk.0 as int) <= x < layout.free_start() implies !covered(
        fr.regions_spec(),
        x,
    ) by {
        if covered(fr.regions_spec(), x) {
            assert(reported_gives(layout, reported, x));
            let k2 = choose|k2: int| 0 <= k2 < reported.len() && #[trigger] gives(layout, reported[k2], x);
            let r2 = reported[k2];
            assert(usable_start(layout, r2.0 as int, r2.1 as int) >= r2.0);
            if k2 < k {
                assert(apart(reported[k2], reported[k]));
            } else if k < k2 {
                assert(apart(reported[k], reported[k2]));
            }
        }
    }
    assert forall|x: int|
        layout.free_start() <= x < layout.virt_of(rk.1 as int) implies covered(
        fr.regions_spec(),
        x,
    ) by {
        assert(gives(layout, reported[k], x));
        assert(reported_gives(layout, reported, x));
    }
}

} // verus!
