//! Which parts of a BAR the guest may map directly.
//!
//! The pages that hold the MSI-X table or the pending bit array must be trapped, so that MSI-X can
//! be emulated. They are carved out of the areas that the device offers for mapping.
use vstd::prelude::*;

use crate::msix::VfioMsixCap;
use crate::msix_allocator::{
    ascending, carved, covers, is_remnant, law_ascending_list_exists,
    law_carving_keeps_regions_separate, law_carving_takes_exactly_the_range, lemma_carved_finite,
    overlaps, precedes, separate, VfioMsixAllocator,
};

verus! {

/// A part of a device region that can be mapped.
#[derive(Clone, Copy, PartialEq, Eq, Structural, Debug)]
pub struct SparseMmapArea {
    pub offset: u64,
    pub size: u64,
}

/// `x` with the bits below the page size cleared.
pub open spec fn page_floor(x: int, pagesize: usize) -> int {
    (x as u64 & !((pagesize as u64 - 1) as u64)) as int
}

/// The parts of BAR `bar_index` that hold MSI-X registers, as `(offset, size)` pairs.
pub open spec fn msix_ranges(cap: VfioMsixCap, bar_index: u32) -> Seq<(u64, u64)> {
    let table = if bar_index == cap.table_pci_bar {
        seq![(cap.table_offset, cap.table_size_bytes)]
    } else {
        seq![]
    };
    let pba = if bar_index == cap.pba_pci_bar {
        seq![(cap.pba_offset, cap.pba_size_bytes)]
    } else {
        seq![]
    };
    table + pba
}

impl SparseMmapArea {
    /// Whether the area is non-empty and ends within the 64-bit address space.
    pub open spec fn valid(&self) -> bool {
        self.size > 0 && self.offset + self.size - 1 <= u64::MAX
    }

    /// Whether `x` lies in the area.
    pub open spec fn contains(&self, x: int) -> bool {
        self.offset <= x < self.offset + self.size
    }

    /// First page address of the part of the `(offset, size)` range `r` that lies in the area.
    pub open spec fn span_begin(&self, r: (u64, u64), pagesize: usize) -> int {
        page_floor(vstd::math::max(r.0 as int, self.offset as int), pagesize)
    }

    /// End of the last page of the part of the `(offset, size)` range `r` that lies in the area.
    pub open spec fn span_end(&self, r: (u64, u64), pagesize: usize) -> int {
        page_floor(
            vstd::math::min(r.0 + r.1, self.offset + self.size) + pagesize - 1,
            pagesize,
        )
    }

    /// Whether the `(offset, size)` range `r` starts in the area, or reaches into it from before.
    pub open spec fn touched_by(&self, r: (u64, u64)) -> bool {
        self.size > 0 && r.0 < self.offset + self.size && (self.offset <= r.0 || self.offset < r.0
            + r.1)
    }

    /// Whether `r` takes pages out of the area. A range with a byte in the area does, and so does an
    /// empty one inside of a page.
    pub open spec fn is_carved(&self, r: (u64, u64), pagesize: usize) -> bool {
        self.touched_by(r) && self.span_begin(r, pagesize) < self.span_end(r, pagesize)
    }

    /// Whether the end of the area, where `r` is held against it, and the pages of `r` in this area
    /// can be computed in 64 bits.
    pub open spec fn fits(&self, r: (u64, u64), pagesize: usize) -> bool {
        &&& self.offset <= r.0 ==> self.offset + self.size <= u64::MAX
        &&& self.touched_by(r) ==> r.0 + r.1 <= u64::MAX && vstd::math::min(
            r.0 + r.1,
            self.offset + self.size,
        ) + pagesize - 1 <= u64::MAX
    }

    /// Whether the pages of each of `ranges` in this area can be computed in 64 bits.
    pub open spec fn fits_all(&self, ranges: Seq<(u64, u64)>, pagesize: usize) -> bool {
        forall|k: int| 0 <= k < ranges.len() ==> self.fits(#[trigger] ranges[k], pagesize)
    }

    /// The regions of the area, as pairs of first and last byte, once the pages of `ranges` are
    /// carved out of it.
    pub open spec fn left_after(&self, ranges: Seq<(u64, u64)>, pagesize: usize) -> Set<(u64, u64)>
        decreases ranges.len(),
    {
        if ranges.len() == 0 {
            set![(self.offset, (self.offset + self.size - 1) as u64)]
        } else {
            let before = self.left_after(ranges.drop_last(), pagesize);
            let r = ranges.last();
            if self.is_carved(r, pagesize) {
                carved(before, self.span_begin(r, pagesize), self.span_end(r, pagesize) - 1)
            } else {
                before
            }
        }
    }
}

/// The area from the first to the last byte of a region.
pub open spec fn to_area(r: (u64, u64)) -> SparseMmapArea {
    SparseMmapArea { offset: r.0, size: (r.1 - r.0 + 1) as u64 }
}

/// What is left of `areas`, in order, once the pages of `ranges` are carved out of each.
pub open spec fn areas_left(
    areas: Seq<SparseMmapArea>,
    ranges: Seq<(u64, u64)>,
    pagesize: usize,
) -> Seq<SparseMmapArea>
    decreases areas.len(),
{
    if areas.len() == 0 {
        seq![]
    } else {
        areas_left(areas.drop_last(), ranges, pagesize) + ascending(
            areas.last().left_after(ranges, pagesize),
        ).map_values(|r: (u64, u64)| to_area(r))
    }
}

/// What may be mapped of BAR `bar_index` of which the device offers `areas`: all of them if the
/// BAR holds no MSI-X register, nothing if an area is empty or ends beyond the address space,
/// and otherwise what is left of each area without the pages of the MSI-X registers.
pub open spec fn mappable(
    cap: VfioMsixCap,
    bar_index: u32,
    areas: Seq<SparseMmapArea>,
    pagesize: usize,
) -> Seq<SparseMmapArea> {
    let ranges = msix_ranges(cap, bar_index);
    if ranges.len() == 0 {
        areas
    } else if exists|i: int| 0 <= i < areas.len() && !(#[trigger] areas[i]).valid() {
        seq![]
    } else {
        areas_left(areas, ranges, pagesize)
    }
}

/// Whether the pages of `ranges` can be computed in 64 bits in each of `areas`, up to the first
/// that is not valid.
pub open spec fn all_fit(
    areas: Seq<SparseMmapArea>,
    ranges: Seq<(u64, u64)>,
    pagesize: usize,
) -> bool {
    forall|i: int|
        0 <= i < areas.len() && (forall|j: int| 0 <= j <= i ==> (#[trigger] areas[j]).valid())
            ==> (#[trigger] areas[i]).fits_all(ranges, pagesize)
}

/// What is left of an area lies in the area.
proof fn lemma_left_inside(
    area: SparseMmapArea,
    ranges: Seq<(u64, u64)>,
    pagesize: usize,
    p: (u64, u64),
)
    requires
        area.valid(),
        area.left_after(ranges, pagesize).contains(p),
    ensures
        area.offset <= p.0 <= p.1 <= area.offset + area.size - 1,
    decreases ranges.len(),
{
    if ranges.len() > 0 {
        let before = area.left_after(ranges.drop_last(), pagesize);
        let r = ranges.last();
        if area.is_carved(r, pagesize) {
            let begin = area.span_begin(r, pagesize);
            let end = area.span_end(r, pagesize) - 1;
            if before.contains(p) && !overlaps(p, begin, end) {
                lemma_left_inside(area, ranges.drop_last(), pagesize, p);
            } else {
                let q = choose|q: (u64, u64)| #[trigger]
                    before.contains(q) && overlaps(q, begin, end) && is_remnant(p, q, begin, end);
                lemma_left_inside(area, ranges.drop_last(), pagesize, q);
            }
        } else {
            lemma_left_inside(area, ranges.drop_last(), pagesize, p);
        }
    }
}

impl SparseMmapArea {
    /// What is left of the area once the pages of `ranges` are carved out of it, if the area is
    /// valid.
    pub fn carve(&self, ranges: &Vec<(u64, u64)>, pagesize: usize) -> (left: Option<
        Vec<SparseMmapArea>,
    >)
        requires
            pagesize > 0,
            self.valid() ==> self.fits_all(ranges@, pagesize),
        ensures
            left is Some <==> self.valid(),
            left matches Some(v) ==> v@ == ascending(self.left_after(ranges@, pagesize)).map_values(
                |r: (u64, u64)| to_area(r),
            ),
    {
        let pgmask: u64 = (pagesize as u64) - 1;
        let mmap_offset: u64 = self.offset;
        let mmap_size: u64 = self.size;
        let mut to_mmap: VfioMsixAllocator = match VfioMsixAllocator::new(mmap_offset, mmap_size) {
            Ok(a) => a,
            Err(_) => return None,
        };
        // The registers are aligned to eight bytes only: widen them to whole pages.
        let mut k: usize = 0;
        while k < ranges.len()
            invariant
                0 <= k <= ranges@.len(),
                pagesize > 0,
                pgmask == pagesize - 1,
                mmap_offset == self.offset,
                mmap_size == self.size,
                self.valid(),
                self.fits_all(ranges@, pagesize),
                to_mmap.regions@ == self.left_after(ranges@.take(k as int), pagesize),
            decreases ranges@.len() - k,
        {
            let (msix_offset, msix_size): (u64, u64) = ranges[k];
            assert(self.fits(ranges@[k as int], pagesize));
            assert(ranges@.take(k + 1).drop_last() =~= ranges@.take(k as int));
            let touched = if msix_offset >= mmap_offset {
                msix_offset < mmap_offset + mmap_size
            } else {
                mmap_offset - msix_offset < msix_size
            };
            if touched {
                let first: u64 = if msix_offset > mmap_offset {
                    msix_offset
                } else {
                    mmap_offset
                };
                let msix_end: u64 = msix_offset + msix_size;
                let last: u64 = if msix_end - mmap_offset < mmap_size {
                    msix_end
                } else {
                    mmap_offset + mmap_size
                };
                let begin: u64 = first & !pgmask;
                let end: u64 = (last + pgmask) & !pgmask;
                if end > begin {
                    let r = to_mmap.allocate_at(begin, end - begin);
                    assert(r is Ok);
                }
            }
            k = k + 1;
        }
        assert(ranges@.take(k as int) =~= ranges@);
        let regions: Vec<(u64, u64)> = to_mmap.list();
        let mut left: Vec<SparseMmapArea> = Vec::new();
        let mut n: usize = 0;
        while n < regions.len()
            invariant
                0 <= n <= regions@.len(),
                self.valid(),
                regions@.to_set() == self.left_after(ranges@, pagesize),
                left@ =~= regions@.take(n as int).map_values(|r: (u64, u64)| to_area(r)),
            decreases regions@.len() - n,
        {
            let r: (u64, u64) = regions[n];
            proof {
                assert(regions@.to_set().contains(regions@[n as int]));
                lemma_left_inside(*self, ranges@, pagesize, r);
            }
            left.push(SparseMmapArea { offset: r.0, size: r.1 - r.0 + 1 });
            n = n + 1;
        }
        assert(regions@.take(n as int) =~= regions@);
        Some(left)
    }
}

impl SparseMmapArea {
    /// Whether the area is non-empty and ends within the 64-bit address space.
    pub fn is_valid(&self) -> (r: bool)
        ensures
            r == self.valid(),
    {
        self.size > 0 && self.offset.checked_add(self.size - 1).is_some()
    }

    /// Whether the pages of `r` in this area can be computed in 64 bits.
    pub fn range_fits(&self, r: (u64, u64), pagesize: usize) -> (ok: bool)
        requires
            pagesize > 0,
        ensures
            ok == self.fits(r, pagesize),
    {
        if r.0 >= self.offset {
            match self.offset.checked_add(self.size) {
                Some(area_end) => if r.0 >= area_end {
                    return true;
                },
                None => return false,
            }
        } else if self.size == 0 || self.offset - r.0 >= r.1 {
            return true;
        }
        let end: u64 = match r.0.checked_add(r.1) {
            Some(end) => end,
            None => return false,
        };
        let last: u64 = if end - self.offset < self.size {
            end
        } else {
            self.offset + self.size
        };
        last.checked_add(pagesize as u64 - 1).is_some()
    }
}

impl VfioMsixCap {
    /// The parts of BAR `bar_index` that hold MSI-X registers, as `(offset, size)` pairs.
    pub fn ranges_in_bar(&self, bar_index: u32) -> (ranges: Vec<(u64, u64)>)
        ensures
            ranges@ =~= msix_ranges(*self, bar_index),
    {
        let mut ranges: Vec<(u64, u64)> = Vec::new();
        if let Some(t) = self.get_msix_table(bar_index) {
            ranges.push(t);
        }
        if let Some(p) = self.get_msix_pba(bar_index) {
            ranges.push(p);
        }
        ranges
    }

    /// Whether what may be mapped of BAR `bar_index` can be computed in 64 bits.
    pub fn areas_fit(
        &self,
        bar_index: u32,
        bar_mmaps: &Vec<SparseMmapArea>,
        pagesize: usize,
    ) -> (ok: bool)
        requires
            pagesize > 0,
        ensures
            ok == all_fit(bar_mmaps@, msix_ranges(*self, bar_index), pagesize),
    {
        let ranges: Vec<(u64, u64)> = self.ranges_in_bar(bar_index);
        let mut i: usize = 0;
        while i < bar_mmaps.len()
            invariant
                0 <= i <= bar_mmaps@.len(),
                pagesize > 0,
                ranges@ == msix_ranges(*self, bar_index),
                forall|j: int| 0 <= j < i ==> (#[trigger] bar_mmaps@[j]).valid(),
                forall|j: int| 0 <= j < i ==> (#[trigger] bar_mmaps@[j]).fits_all(ranges@, pagesize),
            decreases bar_mmaps@.len() - i,
        {
            let area: SparseMmapArea = bar_mmaps[i];
            if !area.is_valid() {
                return true;
            }
            let mut k: usize = 0;
            while k < ranges.len()
                invariant
                    0 <= i < bar_mmaps@.len(),
                    0 <= k <= ranges@.len(),
                    pagesize > 0,
                    area == bar_mmaps@[i as int],
                    ranges@ == msix_ranges(*self, bar_index),
                    forall|j: int| 0 <= j <= i ==> (#[trigger] bar_mmaps@[j]).valid(),
                    forall|n: int| 0 <= n < k ==> area.fits(#[trigger] ranges@[n], pagesize),
                decreases ranges@.len() - k,
            {
                if !area.range_fits(ranges[k], pagesize) {
                    assert(!area.fits(ranges@[k as int], pagesize));
                    assert(!bar_mmaps@[i as int].fits_all(ranges@, pagesize));
                    return false;
                }
                k = k + 1;
            }
            i = i + 1;
        }
        true
    }

    /// What may be mapped of BAR `bar_index` of which the device offers `bar_mmaps`.
    pub fn mappable_areas(
        &self,
        bar_index: u32,
        bar_mmaps: Vec<SparseMmapArea>,
        pagesize: usize,
    ) -> (mmaps: Vec<SparseMmapArea>)
        requires
            pagesize > 0,
            all_fit(bar_mmaps@, msix_ranges(*self, bar_index), pagesize),
        ensures
            mmaps@ == mappable(*self, bar_index, bar_mmaps@, pagesize),
    {
        let msix_mmaps: Vec<(u64, u64)> = self.ranges_in_bar(bar_index);
        if msix_mmaps.len() == 0 {
            return bar_mmaps;
        }
        let mut mmaps: Vec<SparseMmapArea> = Vec::with_capacity(bar_mmaps.len());
        let mut i: usize = 0;
        while i < bar_mmaps.len()
            invariant
                0 <= i <= bar_mmaps@.len(),
                pagesize > 0,
                msix_mmaps@ == msix_ranges(*self, bar_index),
                msix_mmaps@.len() > 0,
                forall|j: int| 0 <= j < i ==> (#[trigger] bar_mmaps@[j]).valid(),
                all_fit(bar_mmaps@, msix_mmaps@, pagesize),
                mmaps@ == areas_left(bar_mmaps@.take(i as int), msix_mmaps@, pagesize),
            decreases bar_mmaps@.len() - i,
        {
            let mmap: SparseMmapArea = bar_mmaps[i];
            match mmap.carve(&msix_mmaps, pagesize) {
                Some(mut left) => {
                    mmaps.append(&mut left);
                },
                None => {
                    assert(!bar_mmaps@[i as int].valid());
                    mmaps.clear();
                    return mmaps;
                },
            }
            assert(bar_mmaps@.take(i + 1).drop_last() =~= bar_mmaps@.take(i as int));
            i = i + 1;
        }
        assert(bar_mmaps@.take(i as int) =~= bar_mmaps@);
        mmaps
    }
}

/// Whether `x` lies in one of `areas`.
pub open spec fn any_contains(areas: Seq<SparseMmapArea>, x: int) -> bool {
    exists|i: int| 0 <= i < areas.len() && (#[trigger] areas[i]).contains(x)
}

/// Whether `x` lies in the pages that one of `ranges` takes out of `area`.
pub open spec fn page_taken(
    area: SparseMmapArea,
    ranges: Seq<(u64, u64)>,
    pagesize: usize,
    x: int,
) -> bool {
    exists|k: int|
        0 <= k < ranges.len() && area.is_carved(#[trigger] ranges[k], pagesize) && area.span_begin(
            ranges[k],
            pagesize,
        ) <= x < area.span_end(ranges[k], pagesize)
}

/// Whether `x` lies in one of `areas` and that area keeps the page.
pub open spec fn any_keeps(
    areas: Seq<SparseMmapArea>,
    ranges: Seq<(u64, u64)>,
    pagesize: usize,
    x: int,
) -> bool {
    exists|i: int|
        0 <= i < areas.len() && (#[trigger] areas[i]).contains(x) && !page_taken(
            areas[i],
            ranges,
            pagesize,
            x,
        )
}

proof fn lemma_left_covers(
    area: SparseMmapArea,
    ranges: Seq<(u64, u64)>,
    pagesize: usize,
    x: int,
)
    requires
        area.valid(),
    ensures
        covers(area.left_after(ranges, pagesize), x) <==> area.contains(x) && !page_taken(
            area,
            ranges,
            pagesize,
            x,
        ),
    decreases ranges.len(),
{
    let left = area.left_after(ranges, pagesize);
    if ranges.len() == 0 {
        assert(left.contains((area.offset, (area.offset + area.size - 1) as u64)));
    } else {
        let before = ranges.drop_last();
        let r = ranges.last();
        lemma_left_covers(area, before, pagesize, x);
        if area.is_carved(r, pagesize) {
            law_carving_takes_exactly_the_range(
                area.left_after(before, pagesize),
                area.span_begin(r, pagesize),
                area.span_end(r, pagesize) - 1,
                x,
            );
        }
        if page_taken(area, before, pagesize, x) {
            let k = choose|k: int|
                0 <= k < before.len() && area.is_carved(#[trigger] before[k], pagesize)
                    && area.span_begin(before[k], pagesize) <= x < area.span_end(
                    before[k],
                    pagesize,
                );
            assert(ranges[k] == before[k]);
        }
        if page_taken(area, ranges, pagesize, x) {
            let k = choose|k: int|
                0 <= k < ranges.len() && area.is_carved(#[trigger] ranges[k], pagesize)
                    && area.span_begin(ranges[k], pagesize) <= x < area.span_end(
                    ranges[k],
                    pagesize,
                );
            if k < before.len() {
                assert(ranges[k] == before[k]);
            }
        }
    }
}

proof fn lemma_left_finite(area: SparseMmapArea, ranges: Seq<(u64, u64)>, pagesize: usize)
    ensures
        area.left_after(ranges, pagesize).finite(),
    decreases ranges.len(),
{
    if ranges.len() > 0 {
        lemma_left_finite(area, ranges.drop_last(), pagesize);
        lemma_carved_finite(
            area.left_after(ranges.drop_last(), pagesize),
            area.span_begin(ranges.last(), pagesize),
            area.span_end(ranges.last(), pagesize) - 1,
        );
    }
}

proof fn lemma_areas_left_contain(
    areas: Seq<SparseMmapArea>,
    ranges: Seq<(u64, u64)>,
    pagesize: usize,
    x: int,
)
    requires
        forall|i: int| 0 <= i < areas.len() ==> (#[trigger] areas[i]).valid(),
    ensures
        any_contains(areas_left(areas, ranges, pagesize), x) <==> any_keeps(
            areas,
            ranges,
            pagesize,
            x,
        ),
    decreases areas.len(),
{
    if areas.len() > 0 {
        let init = areas.drop_last();
        let area = areas.last();
        lemma_areas_left_contain(init, ranges, pagesize, x);
        lemma_left_covers(area, ranges, pagesize, x);
        let regions = area.left_after(ranges, pagesize);
        let list = ascending(regions);
        lemma_left_finite(area, ranges, pagesize);
        law_ascending_list_exists(regions);
        let head = areas_left(init, ranges, pagesize);
        let tail = list.map_values(|r: (u64, u64)| to_area(r));
        let all = areas_left(areas, ranges, pagesize);
        assert(all == head + tail);
        assert forall|n: int| 0 <= n < list.len() implies {
            &&& regions.contains(#[trigger] list[n])
            &&& tail[n].contains(x) <==> list[n].0 <= x <= list[n].1
        } by {
            assert(list.to_set().contains(list[n]));
            lemma_left_inside(area, ranges, pagesize, list[n]);
        }
        if any_contains(all, x) {
            let i = choose|i: int| 0 <= i < all.len() && (#[trigger] all[i]).contains(x);
            if i < head.len() {
                assert(head[i].contains(x));
                let j = choose|j: int|
                    0 <= j < init.len() && (#[trigger] init[j]).contains(x) && !page_taken(
                        init[j],
                        ranges,
                        pagesize,
                        x,
                    );
                assert(areas[j] == init[j]);
            } else {
                assert(tail[i - head.len()].contains(x));
                assert(regions.contains(list[i - head.len()]));
                assert(areas[areas.len() - 1] == area);
            }
        }
        if any_keeps(areas, ranges, pagesize, x) {
            let j = choose|j: int|
                0 <= j < areas.len() && (#[trigger] areas[j]).contains(x) && !page_taken(
                    areas[j],
                    ranges,
                    pagesize,
                    x,
                );
            if j < init.len() {
                assert(init[j] == areas[j]);
                let i = choose|i: int| 0 <= i < head.len() && (#[trigger] head[i]).contains(x);
                assert(all[i] == head[i]);
            } else {
                let p = choose|p: (u64, u64)| #[trigger] regions.contains(p) && p.0 <= x <= p.1;
                assert(list.to_set().contains(p));
                let n = choose|n: int| 0 <= n < list.len() && list[n] == p;
                assert(all[head.len() + n] == tail[n]);
            }
        }
    }
}

proof fn lemma_page_floor_below(x: u64, pagesize: usize)
    requires
        pagesize > 0,
    ensures
        page_floor(x as int, pagesize) <= x,
{
    let mask = (pagesize as u64 - 1) as u64;
    assert(x & !mask <= x) by (bit_vector);
}

proof fn lemma_page_ceiling_above(y: u64, pagesize: usize)
    requires
        pagesize > 0,
        y + pagesize - 1 <= u64::MAX,
    ensures
        y <= page_floor(y + pagesize - 1, pagesize),
{
    let mask = (pagesize as u64 - 1) as u64;
    let top = (y + pagesize - 1) as u64;
    assert(y <= top & !mask) by (bit_vector)
        requires
            top == y + mask,
    ;
}

/// The pages of `r` in an area hold the whole part of `r` that lies in the area.
proof fn lemma_span(area: SparseMmapArea, r: (u64, u64), pagesize: usize)
    requires
        pagesize > 0,
        area.touched_by(r),
        area.fits(r, pagesize),
    ensures
        0 <= area.span_begin(r, pagesize) <= vstd::math::max(r.0 as int, area.offset as int),
        vstd::math::min(r.0 + r.1, area.offset + area.size) <= area.span_end(r, pagesize)
            <= u64::MAX,
{
    lemma_page_floor_below(vstd::math::max(r.0 as int, area.offset as int) as u64, pagesize);
    lemma_page_ceiling_above(
        vstd::math::min(r.0 + r.1, area.offset + area.size) as u64,
        pagesize,
    );
}

/// Of valid areas of a BAR with MSI-X registers, exactly those addresses stay mappable that are
/// not on a page taken by the registers.
pub proof fn law_mappable_is_all_but_register_pages(
    cap: VfioMsixCap,
    bar_index: u32,
    areas: Seq<SparseMmapArea>,
    pagesize: usize,
    x: int,
)
    requires
        msix_ranges(cap, bar_index).len() > 0,
        forall|i: int| 0 <= i < areas.len() ==> (#[trigger] areas[i]).valid(),
    ensures
        any_contains(mappable(cap, bar_index, areas, pagesize), x) <==> any_keeps(
            areas,
            msix_ranges(cap, bar_index),
            pagesize,
            x,
        ),
{
    lemma_areas_left_contain(areas, msix_ranges(cap, bar_index), pagesize, x);
}

/// No address of the MSI-X table or of the pending bit array can be mapped, so that every guest
/// access to them is trapped.
pub proof fn law_msix_registers_are_trapped(
    cap: VfioMsixCap,
    bar_index: u32,
    areas: Seq<SparseMmapArea>,
    pagesize: usize,
    x: int,
)
    requires
        pagesize > 0,
        all_fit(areas, msix_ranges(cap, bar_index), pagesize),
        cap.in_table(bar_index, x) || cap.in_pba(bar_index, x),
    ensures
        !any_contains(mappable(cap, bar_index, areas, pagesize), x),
{
    let ranges = msix_ranges(cap, bar_index);
    if forall|i: int| 0 <= i < areas.len() ==> (#[trigger] areas[i]).valid() {
        lemma_areas_left_contain(areas, ranges, pagesize, x);
        assert forall|i: int|
            0 <= i < areas.len() && (#[trigger] areas[i]).contains(x) implies page_taken(
            areas[i],
            ranges,
            pagesize,
            x,
        ) by {
            let area = areas[i];
            let k = if cap.in_table(bar_index, x) {
                0
            } else {
                ranges.len() - 1
            };
            let r = ranges[k];
            assert(area.fits_all(ranges, pagesize));
            assert(area.fits(r, pagesize));
            lemma_span(area, r, pagesize);
        }
    }
}

/// What may be mapped can be computed for all areas that end below the top of the 64-bit address
/// space.
pub proof fn law_areas_below_the_top_fit(
    cap: VfioMsixCap,
    bar_index: u32,
    areas: Seq<SparseMmapArea>,
    pagesize: usize,
)
    requires
        cap.wf(),
        pagesize <= 0x8000_0000_0000_0000,
        forall|i: int|
            0 <= i < areas.len() ==> (#[trigger] areas[i]).offset + areas[i].size <= u64::MAX,
    ensures
        all_fit(areas, msix_ranges(cap, bar_index), pagesize),
{
}

/// Whether `pagesize` is a power of two.
pub open spec fn is_page_size(pagesize: usize) -> bool {
    exists|k: nat| k < 64 && #[trigger] vstd::arithmetic::power2::pow2(k) == pagesize
}

/// Whether MSI-X registers are, or an empty table or array starts, at the offset `y` of BAR
/// `bar_index`.
pub open spec fn register_at(cap: VfioMsixCap, bar_index: u32, y: int) -> bool {
    ||| bar_index == cap.table_pci_bar && (cap.table_offset <= y < cap.table_offset
        + cap.table_size_bytes || y == cap.table_offset)
    ||| bar_index == cap.pba_pci_bar && (cap.pba_offset <= y < cap.pba_offset + cap.pba_size_bytes
        || y == cap.pba_offset)
}

/// Whether the page of the offset `x` of BAR `bar_index` holds MSI-X registers.
pub open spec fn on_register_page(
    cap: VfioMsixCap,
    bar_index: u32,
    pagesize: usize,
    x: int,
) -> bool {
    exists|y: int| #[trigger]
        register_at(cap, bar_index, y) && y / (pagesize as int) == x / (pagesize as int)
}

proof fn lemma_page_floor_is_a_multiple(x: u64, pagesize: usize)
    requires
        is_page_size(pagesize),
    ensures
        pagesize > 0,
        page_floor(x as int, pagesize) == pagesize * (x as int / pagesize as int),
{
    let k = choose|k: nat| k < 64 && #[trigger] vstd::arithmetic::power2::pow2(k) == pagesize;
    vstd::arithmetic::power2::lemma_pow2_pos(k);
    vstd::bits::lemma_u64_low_bits_mask_is_mod(x, k);
    let mask = (pagesize as u64 - 1) as u64;
    assert(vstd::bits::low_bits_mask(k) as u64 == mask);
    assert(x & !mask == x - (x & mask)) by (bit_vector);
    vstd::arithmetic::div_mod::lemma_fundamental_div_mod(x as int, pagesize as int);
}

proof fn lemma_in_page(x: int, p: int, q: int)
    requires
        p > 0,
        p * q <= x < p * q + p,
    ensures
        x / p == q,
{
    vstd::arithmetic::mul::lemma_mul_is_commutative(p, q);
    vstd::arithmetic::div_mod::lemma_fundamental_div_mod_converse(x, p, q, x - p * q);
}

/// An address on the pages that a range takes out of an area is on a page of the range.
proof fn lemma_taken_page_holds_the_range(
    area: SparseMmapArea,
    r: (u64, u64),
    pagesize: usize,
    x: int,
) -> (y: int)
    requires
        is_page_size(pagesize),
        area.fits(r, pagesize),
        area.is_carved(r, pagesize),
        area.span_begin(r, pagesize) <= x < area.span_end(r, pagesize),
    ensures
        r.0 <= y < r.0 + r.1 || y == r.0,
        y / (pagesize as int) == x / (pagesize as int),
{
    let p = pagesize as int;
    let f = vstd::math::max(r.0 as int, area.offset as int);
    let l = vstd::math::min(r.0 + r.1, area.offset + area.size);
    lemma_page_floor_is_a_multiple(f as u64, pagesize);
    lemma_page_floor_is_a_multiple((l + p - 1) as u64, pagesize);
    vstd::arithmetic::div_mod::lemma_fundamental_div_mod(f, p);
    vstd::arithmetic::div_mod::lemma_fundamental_div_mod(l + p - 1, p);
    vstd::arithmetic::div_mod::lemma_mod_bound(f, p);
    vstd::arithmetic::div_mod::lemma_mod_bound(l + p - 1, p);
    let t = (l + p - 1) / p;
    vstd::arithmetic::mul::lemma_mul_is_distributive_sub(p, t, 1);
    if x < f {
        lemma_in_page(x, p, f / p);
        f
    } else if x < l {
        x
    } else if f < l {
        lemma_in_page(x, p, t - 1);
        lemma_in_page(l - 1, p, t - 1);
        l - 1
    } else {
        lemma_in_page(x, p, t - 1);
        lemma_in_page(l, p, t - 1);
        l
    }
}

/// Only the pages of MSI-X registers are left out: of valid areas, every address that is on no such
/// page can be mapped.
pub proof fn law_other_pages_stay_mappable(
    cap: VfioMsixCap,
    bar_index: u32,
    areas: Seq<SparseMmapArea>,
    pagesize: usize,
    x: int,
)
    requires
        is_page_size(pagesize),
        forall|i: int| 0 <= i < areas.len() ==> (#[trigger] areas[i]).valid(),
        all_fit(areas, msix_ranges(cap, bar_index), pagesize),
        any_contains(areas, x),
        !on_register_page(cap, bar_index, pagesize, x),
    ensures
        any_contains(mappable(cap, bar_index, areas, pagesize), x),
{
    let ranges = msix_ranges(cap, bar_index);
    let i = choose|i: int| 0 <= i < areas.len() && (#[trigger] areas[i]).contains(x);
    let area = areas[i];
    assert(area.fits_all(ranges, pagesize));
    if page_taken(area, ranges, pagesize, x) {
        let k = choose|k: int|
            0 <= k < ranges.len() && area.is_carved(#[trigger] ranges[k], pagesize)
                && area.span_begin(ranges[k], pagesize) <= x < area.span_end(
                ranges[k],
                pagesize,
            );
        assert(area.fits(ranges[k], pagesize));
        let y = lemma_taken_page_holds_the_range(area, ranges[k], pagesize, x);
        assert(register_at(cap, bar_index, y));
    }
    lemma_areas_left_contain(areas, ranges, pagesize, x);
}

/// Nothing can be mapped that was not offered.
pub proof fn law_only_what_is_offered_is_mappable(
    cap: VfioMsixCap,
    bar_index: u32,
    areas: Seq<SparseMmapArea>,
    pagesize: usize,
    x: int,
)
    requires
        any_contains(mappable(cap, bar_index, areas, pagesize), x),
    ensures
        any_contains(areas, x),
{
    if forall|i: int| 0 <= i < areas.len() ==> (#[trigger] areas[i]).valid() {
        lemma_areas_left_contain(areas, msix_ranges(cap, bar_index), pagesize, x);
    }
}

/// A BAR without MSI-X registers can be mapped as it is offered. One with such registers has nothing
/// mapped if one of its areas is empty or ends beyond the address space.
pub proof fn law_mapping_without_carving(
    cap: VfioMsixCap,
    bar_index: u32,
    areas: Seq<SparseMmapArea>,
    pagesize: usize,
    i: int,
)
    ensures
        bar_index != cap.table_pci_bar && bar_index != cap.pba_pci_bar ==> mappable(
            cap,
            bar_index,
            areas,
            pagesize,
        ) == areas,
        (bar_index == cap.table_pci_bar || bar_index == cap.pba_pci_bar) && 0 <= i < areas.len() && (
        areas[i].size == 0 || areas[i].offset + areas[i].size > 0x1_0000_0000_0000_0000)
            ==> mappable(cap, bar_index, areas, pagesize).len() == 0,
{
    if 0 <= i < areas.len() {
        assert(areas[i].valid() <==> !(areas[i].size == 0 || areas[i].offset + areas[i].size
            > 0x1_0000_0000_0000_0000));
    }
}

/// What is left of one area is listed from its start to its end, each part once.
pub proof fn law_parts_of_an_area_are_in_order(
    cap: VfioMsixCap,
    bar_index: u32,
    area: SparseMmapArea,
    pagesize: usize,
    i: int,
    j: int,
)
    requires
        area.valid(),
    ensures
        ({
            let parts = mappable(cap, bar_index, seq![area], pagesize);
            0 <= i < j < parts.len() ==> parts[i].offset + parts[i].size < parts[j].offset
        }),
{
    let ranges = msix_ranges(cap, bar_index);
    let left = area.left_after(ranges, pagesize);
    assert(seq![area].drop_last() =~= seq![]);
    assert(seq![area].last() == area);
    lemma_left_finite(area, ranges, pagesize);
    law_ascending_list_exists(left);
    lemma_left_separate(area, ranges, pagesize);
    let list = ascending(left);
    let parts = mappable(cap, bar_index, seq![area], pagesize);
    if ranges.len() > 0 {
        let one = seq![area];
        assert(forall|k: int| 0 <= k < one.len() ==> (#[trigger] one[k]) == area);
        reveal_with_fuel(areas_left, 2);
        assert(parts == areas_left(one, ranges, pagesize));
        assert(areas_left(one.drop_last(), ranges, pagesize).len() == 0);
        assert(parts =~= list.map_values(|r: (u64, u64)| to_area(r)));
        if 0 <= i < j < parts.len() {
            assert(list.to_set().contains(list[i]));
            assert(list.to_set().contains(list[j]));
            lemma_left_inside(area, ranges, pagesize, list[i]);
            lemma_left_inside(area, ranges, pagesize, list[j]);
            assert(precedes(list[i], list[j]));
            assert(left.contains(list[i]) && left.contains(list[j]));
        }
    }
}

proof fn lemma_left_separate(area: SparseMmapArea, ranges: Seq<(u64, u64)>, pagesize: usize)
    requires
        area.valid(),
    ensures
        separate(area.left_after(ranges, pagesize)),
    decreases ranges.len(),
{
    if ranges.len() > 0 {
        let r = ranges.last();
        lemma_left_separate(area, ranges.drop_last(), pagesize);
        if area.is_carved(r, pagesize) {
            law_carving_keeps_regions_separate(
                area.left_after(ranges.drop_last(), pagesize),
                area.span_begin(r, pagesize),
                area.span_end(r, pagesize) - 1,
            );
        }
    }
}

} // verus!
