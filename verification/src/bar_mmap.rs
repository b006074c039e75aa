//! Maps the BARs of a device into the guest.
use vstd::prelude::*;

use crate::bar::PciBarConfiguration;
use crate::device::{DeviceView, MemSlot, VfioPciDevice};
use crate::sparse_mmap::{
    all_fit, any_contains, is_page_size, law_msix_registers_are_trapped,
    law_only_what_is_offered_is_mappable, law_other_pages_stay_mappable, mappable, msix_ranges,
    on_register_page, SparseMmapArea,
};

verus! {

/// Flag of a device region: the region supports mapping.
pub const VFIO_REGION_INFO_FLAG_MMAP: u32 = 4;

/// A request to map part of the host device's file into the guest.
#[derive(Clone, Copy, PartialEq, Eq, Structural, Debug)]
pub struct RegisterMmapMemory {
    pub size: usize,
    /// Where the part starts in the file.
    pub offset: u64,
    /// Where the part appears to the guest.
    pub gpa: u64,
    pub read_only: bool,
}

/// The mapping of one BAR, area by area.
pub struct BarMapping {
    pub areas: Vec<SparseMmapArea>,
    pub bar_addr: u64,
    /// The area to map next.
    pub next: usize,
    /// The mappings made.
    pub slots: Vec<MemSlot>,
}

impl BarMapping {
    /// Starts to map `areas` of a BAR that the guest sees at `bar_addr`.
    pub fn new(areas: Vec<SparseMmapArea>, bar_addr: u64) -> (m: Self)
        ensures
            m.areas == areas,
            m.bar_addr == bar_addr,
            m.next == 0,
            m.slots@ == Seq::<MemSlot>::empty(),
    {
        BarMapping { areas, bar_addr, next: 0, slots: Vec::new() }
    }

    /// The addresses of the next area fit in 64 bits.
    pub open spec fn next_fits(&self, region_offset: u64) -> bool {
        self.next < self.areas@.len() ==> self.bar_addr + self.areas@[self.next as int].offset
            <= u64::MAX && region_offset + self.areas@[self.next as int].offset <= u64::MAX
    }

    /// The request for the next area, if one is left; `region_offset` is where the region of the
    /// BAR starts in the file.
    pub fn next_request(&self, region_offset: u64) -> (request: Option<RegisterMmapMemory>)
        requires
            self.next_fits(region_offset),
        ensures
            request == (if self.next < self.areas@.len() {
                let area = self.areas@[self.next as int];
                Some(
                    RegisterMmapMemory {
                        size: area.size as usize,
                        offset: (region_offset + area.offset) as u64,
                        gpa: (self.bar_addr + area.offset) as u64,
                        read_only: false,
                    },
                )
            } else {
                None
            }),
    {
        if self.next < self.areas.len() {
            let area: SparseMmapArea = self.areas[self.next];
            Some(
                RegisterMmapMemory {
                    size: area.size as usize,
                    offset: region_offset + area.offset,
                    gpa: self.bar_addr + area.offset,
                    read_only: false,
                },
            )
        } else {
            None
        }
    }

    /// Takes the mapping that the last request made. Where it made none, no further area is mapped.
    pub fn registered(&mut self, slot: Option<MemSlot>)
        requires
            old(self).next < old(self).areas@.len(),
        ensures
            final(self).areas == old(self).areas,
            final(self).bar_addr == old(self).bar_addr,
            final(self).slots@ == old(self).slots@ + crate::device::option_seq(slot),
            final(self).next == (if slot is Some {
                old(self).next + 1
            } else {
                old(self).areas@.len() as int
            }),
    {
        let total: usize = self.areas.len();
        match slot {
            Some(slot) => {
                self.slots.push(slot);
                self.next = self.next + 1;
            },
            None => {
                self.next = total;
            },
        }
    }
}

/// The BAR index and the address of each of `regions` that was given an address.
pub open spec fn placed(regions: Seq<PciBarConfiguration>) -> Seq<(u32, u64)>
    decreases regions.len(),
{
    if regions.len() == 0 {
        seq![]
    } else {
        let before = placed(regions.drop_last());
        if regions.last().addr != 0 {
            before.push((regions.last().bar_idx as u32, regions.last().addr))
        } else {
            before
        }
    }
}

impl DeviceView {
    /// What is to be mapped of BAR `index`, of which the host device offers `region_mmaps`: nothing
    /// unless the region supports mapping, and nothing that has to be trapped for MSI-X.
    pub open spec fn areas_to_map(
        self,
        index: u32,
        flags: u32,
        region_mmaps: Seq<SparseMmapArea>,
        pagesize: usize,
    ) -> Seq<SparseMmapArea> {
        if flags / 4 % 2 == 0 {
            seq![]
        } else {
            match self.msix_cap {
                Some(cap) => mappable(cap, index, region_mmaps, pagesize),
                None => region_mmaps,
            }
        }
    }

    /// The device once all BARs were mapped anew: `slots` are then its mappings.
    pub open spec fn bars_remapped(self, slots: Seq<MemSlot>) -> DeviceView {
        DeviceView { mmap_slots: slots, remap: false, ..self }
    }

    /// What is to be mapped of BAR `index` can be computed in 64 bits.
    pub open spec fn areas_fit(
        self,
        index: u32,
        flags: u32,
        region_mmaps: Seq<SparseMmapArea>,
        pagesize: usize,
    ) -> bool {
        flags / 4 % 2 == 1 && self.msix_cap is Some ==> pagesize > 0 && all_fit(
            region_mmaps,
            msix_ranges(self.msix_cap->0, index),
            pagesize,
        )
    }
}

impl VfioPciDevice {
    /// The areas of `bar_mmaps` less the pages of BAR `bar_index` that hold MSI-X registers.
    pub fn add_bar_mmap_msix(
        &self,
        bar_index: u32,
        bar_mmaps: Vec<SparseMmapArea>,
        pagesize: usize,
    ) -> (mmaps: Vec<SparseMmapArea>)
        requires
            self@.msix_cap is Some,
            pagesize > 0,
            all_fit(bar_mmaps@, msix_ranges(self@.msix_cap->0, bar_index), pagesize),
        ensures
            mmaps@ == mappable(self@.msix_cap->0, bar_index, bar_mmaps@, pagesize),
            forall|x: int|
                self@.msix_cap->0.in_table(bar_index, x) || self@.msix_cap->0.in_pba(bar_index, x)
                    ==> !#[trigger] any_contains(mmaps@, x),
    {
        proof {
            let cap = self@.msix_cap->0;
            let mmaps = mappable(cap, bar_index, bar_mmaps@, pagesize);
            assert forall|x: int|
                cap.in_table(bar_index, x) || cap.in_pba(
                    bar_index,
                    x,
                ) implies !#[trigger] any_contains(mmaps, x) by {
                law_msix_registers_are_trapped(cap, bar_index, bar_mmaps@, pagesize, x);
            }
        }
        match self.msix_cap {
            Some(cap) => cap.mappable_areas(bar_index, bar_mmaps, pagesize),
            None => bar_mmaps,
        }
    }

    /// Starts to map BAR `index`, which the guest sees at `bar_addr` and of which the host device
    /// reports the flags `flags` and offers `region_mmaps`.
    pub fn add_bar_mmap(
        &self,
        index: u32,
        bar_addr: u64,
        flags: u32,
        region_mmaps: Vec<SparseMmapArea>,
        pagesize: usize,
    ) -> (m: BarMapping)
        requires
            self@.areas_fit(index, flags, region_mmaps@, pagesize),
        ensures
            m.areas@ == self@.areas_to_map(index, flags, region_mmaps@, pagesize),
            m.bar_addr == bar_addr,
            m.next == 0,
            m.slots@ == Seq::<MemSlot>::empty(),
            forall|x: int| #[trigger]
                any_contains(m.areas@, x) ==> flags / 4 % 2 == 1 && any_contains(region_mmaps@, x)
                    && (self.msix_cap matches Some(cap) ==> !cap.in_table(index, x) && !cap.in_pba(
                    index,
                    x,
                )),
            flags / 4 % 2 == 1 && is_page_size(pagesize) && (forall|i: int|
                0 <= i < region_mmaps@.len() ==> (#[trigger] region_mmaps@[i]).valid()) ==> forall|
                x: int,
            | #[trigger]
                any_contains(region_mmaps@, x) && (self.msix_cap matches Some(cap)
                    ==> !on_register_page(cap, index, pagesize, x)) ==> any_contains(m.areas@, x),
    {
        proof {
            let areas = self@.areas_to_map(index, flags, region_mmaps@, pagesize);
            assert forall|x: int| #[trigger] any_contains(areas, x) implies flags / 4 % 2 == 1
                && any_contains(region_mmaps@, x) && (self.msix_cap matches Some(cap)
                ==> !cap.in_table(index, x) && !cap.in_pba(index, x)) by {
                law_mapping_traps_the_registers(self@, index, flags, region_mmaps@, pagesize, x);
            }
            if flags / 4 % 2 == 1 && is_page_size(pagesize) && (forall|i: int|
                0 <= i < region_mmaps@.len() ==> (#[trigger] region_mmaps@[i]).valid()) {
                assert forall|x: int| #[trigger]
                    any_contains(region_mmaps@, x) && (self.msix_cap matches Some(cap)
                        ==> !on_register_page(cap, index, pagesize, x)) implies any_contains(
                    areas,
                    x,
                ) by {
                    law_mapping_leaves_nothing_else_out(
                        self@,
                        index,
                        flags,
                        region_mmaps@,
                        pagesize,
                        x,
                    );
                }
            }
        }
        assert((flags & 4 != 0) == (flags / 4 % 2 == 1)) by (bit_vector);
        let mut mmaps: Vec<SparseMmapArea> = Vec::new();
        if flags & VFIO_REGION_INFO_FLAG_MMAP != 0 {
            mmaps = region_mmaps;
            if self.msix_cap.is_some() {
                mmaps = self.add_bar_mmap_msix(index, mmaps, pagesize);
            }
        }
        BarMapping::new(mmaps, bar_addr)
    }

    /// Starts to map all BARs anew: the mappings to be unregistered, and the index and the address
    /// of each BAR that is then to be mapped.
    pub fn enable_bars_mmap(&mut self) -> (r: (Vec<MemSlot>, Vec<(u32, u64)>))
        ensures
            r.0@ == old(self)@.mmap_slots,
            r.1@ == placed(old(self)@.mmio_regions),
            final(self)@ == (DeviceView { mmap_slots: seq![], ..old(self)@ }),
    {
        let slots: Vec<MemSlot> = self.disable_bars_mmap();
        let mut bars: Vec<(u32, u64)> = Vec::new();
        let mut k: usize = 0;
        assert(self.mmio_regions@.take(0) =~= seq![]);
        while k < self.mmio_regions.len()
            invariant
                0 <= k <= self.mmio_regions@.len(),
                bars@ == placed(self.mmio_regions@.take(k as int)),
            decreases self.mmio_regions@.len() - k,
        {
            let region: PciBarConfiguration = self.mmio_regions[k];
            if region.addr != 0 {
                bars.push((region.bar_idx as u32, region.addr));
            }
            assert(self.mmio_regions@.take(k + 1).drop_last() =~= self.mmio_regions@.take(k as int));
            k = k + 1;
        }
        assert(self.mmio_regions@.take(k as int) =~= self.mmio_regions@);
        (slots, bars)
    }

    /// Takes the mappings made for all BARs.
    pub fn bars_mapped(&mut self, slots: Vec<MemSlot>)
        ensures
            final(self)@ == (DeviceView {
                mmap_slots: old(self)@.mmap_slots + slots@,
                remap: false,
                ..old(self)@
            }),
    {
        let mut slots = slots;
        self.mmap_slots.append(&mut slots);
        self.remap = false;
    }
}

/// Only BARs that were given an address are mapped, and all of them.
pub proof fn law_placed_bars_are_mapped(regions: Seq<PciBarConfiguration>, bar: (u32, u64))
    ensures
        placed(regions).contains(bar) <==> bar.1 != 0 && exists|i: int|
            0 <= i < regions.len() && (#[trigger] regions[i]).bar_idx as u32 == bar.0
                && regions[i].addr == bar.1,
    decreases regions.len(),
{
    if regions.len() > 0 {
        let init = regions.drop_last();
        let last = regions.last();
        law_placed_bars_are_mapped(init, bar);
        let list = placed(regions);
        if placed(init).contains(bar) {
            let k = choose|k: int| 0 <= k < placed(init).len() && placed(init)[k] == bar;
            assert(list[k] == bar);
        }
        if last.addr != 0 {
            assert(list[list.len() - 1] == (last.bar_idx as u32, last.addr));
        }
        if list.contains(bar) {
            let k = choose|k: int| 0 <= k < list.len() && list[k] == bar;
            if k < placed(init).len() {
                assert(placed(init)[k] == bar);
                let i = choose|i: int|
                    0 <= i < init.len() && (#[trigger] init[i]).bar_idx as u32 == bar.0
                        && init[i].addr == bar.1;
                assert(regions[i] == init[i]);
            } else {
                assert(regions[regions.len() - 1] == last);
            }
        }
        if bar.1 != 0 && exists|i: int|
            0 <= i < regions.len() && (#[trigger] regions[i]).bar_idx as u32 == bar.0
                && regions[i].addr == bar.1 {
            let i = choose|i: int|
                0 <= i < regions.len() && (#[trigger] regions[i]).bar_idx as u32 == bar.0
                    && regions[i].addr == bar.1;
            if i < init.len() {
                assert(init[i] == regions[i]);
            }
        }
    }
}

/// Of BAR `index` only what the host device offers is mapped, only if the region supports mapping (bit
/// 2 of its flags), and no byte of the MSI-X table or of the pending bit array, so that guest accesses
/// to them are trapped.
pub proof fn law_mapping_traps_the_registers(
    d: DeviceView,
    index: u32,
    flags: u32,
    region_mmaps: Seq<SparseMmapArea>,
    pagesize: usize,
    x: int,
)
    requires
        d.areas_fit(index, flags, region_mmaps, pagesize),
        any_contains(d.areas_to_map(index, flags, region_mmaps, pagesize), x),
    ensures
        flags / 4 % 2 == 1,
        any_contains(region_mmaps, x),
        d.msix_cap matches Some(cap) ==> !(index == cap.table_pci_bar && cap.table_offset <= x
            < cap.table_offset + cap.table_size_bytes) && !(index == cap.pba_pci_bar
            && cap.pba_offset <= x < cap.pba_offset + cap.pba_size_bytes),
{
    if let Some(cap) = d.msix_cap {
        law_only_what_is_offered_is_mappable(cap, index, region_mmaps, pagesize, x);
        if cap.in_table(index, x) || cap.in_pba(index, x) {
            law_msix_registers_are_trapped(cap, index, region_mmaps, pagesize, x);
        }
    }
}

/// Of a region that supports mapping, everything that the host device offers in valid areas is mapped,
/// but for the pages of MSI-X registers.
pub proof fn law_mapping_leaves_nothing_else_out(
    d: DeviceView,
    index: u32,
    flags: u32,
    region_mmaps: Seq<SparseMmapArea>,
    pagesize: usize,
    x: int,
)
    requires
        d.areas_fit(index, flags, region_mmaps, pagesize),
        flags / 4 % 2 == 1,
        is_page_size(pagesize),
        forall|i: int| 0 <= i < region_mmaps.len() ==> (#[trigger] region_mmaps[i]).valid(),
        any_contains(region_mmaps, x),
        d.msix_cap matches Some(cap) ==> !on_register_page(cap, index, pagesize, x),
    ensures
        any_contains(d.areas_to_map(index, flags, region_mmaps, pagesize), x),
{
    if let Some(cap) = d.msix_cap {
        law_other_pages_stay_mappable(cap, index, region_mmaps, pagesize, x);
    }
}

/// A device without MSI-X has all that its regions offer mapped, as it is offered.
pub proof fn law_device_without_msix_is_mapped_as_offered(
    d: DeviceView,
    index: u32,
    flags: u32,
    region_mmaps: Seq<SparseMmapArea>,
    pagesize: usize,
)
    requires
        d.msix_cap is None,
        flags / 4 % 2 == 1,
    ensures
        d.areas_to_map(index, flags, region_mmaps, pagesize) == region_mmaps,
{
}

/// BARs are mapped in the order of their regions, each region on its own: one with an address once, at
/// that address and under its index, and one without an address not at all.
pub proof fn law_bars_are_mapped_in_order(
    a: Seq<PciBarConfiguration>,
    b: Seq<PciBarConfiguration>,
    region: PciBarConfiguration,
)
    ensures
        placed(a + b) == placed(a) + placed(b),
        region.addr == 0 ==> placed(seq![region]).len() == 0,
        region.addr != 0 ==> placed(seq![region]) == seq![(region.bar_idx as u32, region.addr)],
    decreases b.len(),
{
    reveal_with_fuel(placed, 2);
    assert(seq![region].drop_last() =~= seq![]);
    if region.addr != 0 {
        assert(placed(seq![region]) =~= seq![(region.bar_idx as u32, region.addr)]);
    }
    if b.len() == 0 {
        assert(a + b =~= a);
        assert(placed(a) + placed(b) =~= placed(a));
    } else {
        law_bars_are_mapped_in_order(a, b.drop_last(), region);
        assert((a + b).drop_last() =~= a + b.drop_last());
        assert(placed(a + b) =~= placed(a) + placed(b));
    }
}

} // verus!
