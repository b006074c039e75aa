//! Base address registers (BARs) and the regions that they place in the guest's address space.
use vstd::prelude::*;

verus! {

/// The kind of region that a BAR describes.
#[derive(Clone, Copy, PartialEq, Eq, Structural, Debug)]
pub enum PciBarRegionType {
    Memory32BitRegion,
    IoRegion,
    Memory64BitRegion,
}

/// Whether reads from the region have no side effects.
#[derive(Clone, Copy, PartialEq, Eq, Structural, Debug)]
pub enum PciBarPrefetchable {
    NotPrefetchable,
    Prefetchable,
}

/// A BAR and the region that it describes.
#[derive(Clone, Copy, PartialEq, Eq, Structural, Debug)]
pub struct PciBarConfiguration {
    pub addr: u64,
    pub size: u64,
    pub bar_idx: usize,
    pub region_type: PciBarRegionType,
    pub prefetchable: PciBarPrefetchable,
}

impl PciBarConfiguration {
    /// A region that is not placed yet.
    pub fn new(
        bar_idx: usize,
        size: u64,
        region_type: PciBarRegionType,
        prefetchable: PciBarPrefetchable,
    ) -> (bar: Self)
        ensures
            bar == (PciBarConfiguration { addr: 0, size, bar_idx, region_type, prefetchable }),
    {
        PciBarConfiguration { addr: 0, size, bar_idx, region_type, prefetchable }
    }

    /// The same region at `addr`.
    pub fn set_address(self, addr: u64) -> (bar: Self)
        ensures
            bar == (PciBarConfiguration { addr, ..self }),
    {
        PciBarConfiguration { addr, ..self }
    }

    /// Whether the region is in memory space.
    pub open spec fn memory(&self) -> bool {
        self.region_type != PciBarRegionType::IoRegion
    }

    /// Whether `addr` lies in the region.
    pub open spec fn holds(&self, addr: int) -> bool {
        self.addr <= addr < self.addr + self.size
    }

    /// Whether the region is in memory space.
    pub fn is_memory(&self) -> (r: bool)
        ensures
            r == self.memory(),
    {
        match self.region_type {
            PciBarRegionType::Memory32BitRegion | PciBarRegionType::Memory64BitRegion => true,
            PciBarRegionType::IoRegion => false,
        }
    }

    /// Whether the region is in I/O space.
    pub fn is_io(&self) -> (r: bool)
        ensures
            r == !self.memory(),
    {
        self.region_type == PciBarRegionType::IoRegion
    }

    /// Whether the region is in memory space and its BAR takes two registers.
    pub fn is_64bit_memory(&self) -> (r: bool)
        ensures
            r == (self.region_type == PciBarRegionType::Memory64BitRegion),
    {
        self.region_type == PciBarRegionType::Memory64BitRegion
    }

    /// Whether BAR register `bar_idx` holds the address of the region, or its lower half.
    pub open spec fn low_register(&self, bar_idx: u32) -> bool {
        self.bar_idx == bar_idx
    }

    /// Whether BAR register `bar_idx` holds the upper half of the address of the region.
    pub open spec fn high_register(&self, bar_idx: u32) -> bool {
        self.region_type == PciBarRegionType::Memory64BitRegion && bar_idx % 2 == 1 && self.bar_idx
            + 1 == bar_idx
    }

    /// The region after the guest has written `val` to BAR register `bar_idx`.
    ///
    /// The lowest four bits of the register are flags. A write that leaves the address bits of the
    /// register as they are does not move the region.
    pub open spec fn rewritten(self, bar_idx: u32, val: u32) -> PciBarConfiguration {
        let low = self.addr % 0x1_0000_0000;
        let new_low = val - val % 16;
        if self.low_register(bar_idx) {
            if low == new_low {
                self
            } else if self.region_type == PciBarRegionType::Memory64BitRegion {
                PciBarConfiguration { addr: (self.addr - low + new_low) as u64, ..self }
            } else {
                PciBarConfiguration { addr: new_low as u64, ..self }
            }
        } else if self.high_register(bar_idx) {
            PciBarConfiguration { addr: (0x1_0000_0000 * val + low) as u64, ..self }
        } else {
            self
        }
    }
}

/// Whether BAR register `bar_idx` belongs to the `k`-th of `regions` and to none before it.
pub open spec fn first_at_register(
    regions: Seq<PciBarConfiguration>,
    bar_idx: u32,
    k: int,
) -> bool {
    &&& 0 <= k < regions.len()
    &&& regions[k].low_register(bar_idx) || regions[k].high_register(bar_idx)
    &&& forall|j: int|
        0 <= j < k ==> !(#[trigger] regions[j]).low_register(bar_idx)
            && !regions[j].high_register(bar_idx)
}

/// `regions` after the guest has written `val` to BAR register `bar_idx`: the first region that
/// the register belongs to is moved.
pub open spec fn regions_rewritten(
    regions: Seq<PciBarConfiguration>,
    bar_idx: u32,
    val: u32,
) -> Seq<PciBarConfiguration> {
    if exists|k: int| first_at_register(regions, bar_idx, k) {
        let k = choose|k: int| first_at_register(regions, bar_idx, k);
        regions.update(k, regions[k].rewritten(bar_idx, val))
    } else {
        regions
    }
}

/// Whether every 64-bit region has its registers among those of the device.
pub open spec fn registers_exist(regions: Seq<PciBarConfiguration>) -> bool {
    forall|i: int|
        0 <= i < regions.len() && (#[trigger] regions[i]).region_type
            == PciBarRegionType::Memory64BitRegion ==> regions[i].bar_idx <= 6
}

/// Whether all of `regions` are in memory space.
pub open spec fn all_memory(regions: Seq<PciBarConfiguration>) -> bool {
    forall|i: int| 0 <= i < regions.len() ==> (#[trigger] regions[i]).memory()
}

/// Whether all of `regions` are in I/O space.
pub open spec fn all_io(regions: Seq<PciBarConfiguration>) -> bool {
    forall|i: int| 0 <= i < regions.len() ==> !(#[trigger] regions[i]).memory()
}

/// Takes a guest write of `val` to BAR register `bar_idx`, and tells whether a region moved.
pub fn write_bar_register(
    regions: &mut Vec<PciBarConfiguration>,
    bar_idx: u32,
    val: u32,
) -> (modify: bool)
    requires
        registers_exist(old(regions)@),
    ensures
        final(regions)@ == regions_rewritten(old(regions)@, bar_idx, val),
        modify == (final(regions)@ != old(regions)@),
{
    let ghost before = regions@;
    let mut k: usize = 0;
    while k < regions.len()
        invariant
            0 <= k <= regions@.len(),
            regions@ == before,
            before == old(regions)@,
            registers_exist(before),
            forall|j: int|
                0 <= j < k ==> !(#[trigger] before[j]).low_register(bar_idx)
                    && !before[j].high_register(bar_idx),
        decreases regions@.len() - k,
    {
        let region: PciBarConfiguration = regions[k];
        let old_addr: u64 = region.addr;
        proof {
            crate::bytes::lemma_low_half(old_addr);
        }
        if region.bar_idx == bar_idx as usize {
            assert(first_at_register(before, bar_idx, k as int));
            proof {
                lemma_register_owner_is_unique(before, bar_idx, k as int);
            }
            let new_addr: u32 = val & 0xFFFFFFF0;
            assert(val & 0xFFFFFFF0 == val - val % 16) by (bit_vector);
            if !region.is_64bit_memory() && (old_addr as u32) != new_addr {
                regions[k] = region.set_address(new_addr as u64);
                assert(regions@[k as int] != before[k as int]);
                return true;
            } else if region.is_64bit_memory() && (old_addr as u32) != new_addr {
                let low: u64 = new_addr as u64;
                assert(low | ((old_addr >> 32) << 32) == old_addr - old_addr % 0x1_0000_0000 + low)
                    by (bit_vector)
                    requires
                        low <= 0xffffffff,
                ;
                regions[k] = region.set_address(low | ((old_addr >> 32) << 32));
                assert(regions@[k as int] != before[k as int]);
                return true;
            }
            assert(regions@ =~= regions_rewritten(before, bar_idx, val));
            return false;
        } else if region.is_64bit_memory() && (bar_idx % 2) == 1 && (region.bar_idx + 1
            == bar_idx as usize) {
            assert(first_at_register(before, bar_idx, k as int));
            proof {
                lemma_register_owner_is_unique(before, bar_idx, k as int);
            }
            let high: u64 = val as u64;
            assert((old_addr >> 32) as u32 == old_addr / 0x1_0000_0000) by (bit_vector);
            assert((high << 32) | (old_addr & 0xFFFFFFFF) == 0x1_0000_0000 * high + old_addr
                % 0x1_0000_0000) by (bit_vector)
                requires
                    high <= 0xffffffff,
            ;
            if val != (old_addr >> 32) as u32 {
                regions[k] = region.set_address((high << 32) | (old_addr & 0xFFFFFFFF));
                assert(regions@[k as int].addr != before[k as int].addr);
                return true;
            }
            assert(regions@ =~= regions_rewritten(before, bar_idx, val));
            return false;
        }
        k = k + 1;
    }
    assert(forall|k: int| !first_at_register(before, bar_idx, k));
    false
}

proof fn lemma_register_owner_is_unique(regions: Seq<PciBarConfiguration>, bar_idx: u32, k: int)
    requires
        first_at_register(regions, bar_idx, k),
    ensures
        forall|j: int| first_at_register(regions, bar_idx, j) ==> j == k,
{
    assert forall|j: int| first_at_register(regions, bar_idx, j) implies j == k by {
        if j < k {
            assert(!regions[j].low_register(bar_idx));
        }
        if k < j {
            assert(!regions[k].low_register(bar_idx));
        }
    }
}

/// Writing the two registers of a 64-bit BAR, in either order, places the region at the address
/// that they hold together.
pub proof fn law_bar_halves_make_the_address(
    region: PciBarConfiguration,
    bar_idx: u32,
    low: u32,
    high: u32,
)
    requires
        region.region_type == PciBarRegionType::Memory64BitRegion,
        region.bar_idx == bar_idx,
        bar_idx % 2 == 0,
    ensures
        region.rewritten(bar_idx, low).rewritten((bar_idx + 1) as u32, high).addr == 0x1_0000_0000
            * high + (low - low % 16),
        region.rewritten((bar_idx + 1) as u32, high).rewritten(bar_idx, low).addr == 0x1_0000_0000
            * high + (low - low % 16),
{
    let a = region.rewritten(bar_idx, low);
    assert(a.addr % 0x1_0000_0000 == low - low % 16);
    let b = region.rewritten((bar_idx + 1) as u32, high);
    assert(b.addr == 0x1_0000_0000 * high + region.addr % 0x1_0000_0000);
    assert(b.addr % 0x1_0000_0000 == region.addr % 0x1_0000_0000);
}

/// A write to a BAR register moves regions, and changes nothing else about them.
pub proof fn law_bar_writes_only_move_regions(
    regions: Seq<PciBarConfiguration>,
    bar_idx: u32,
    val: u32,
    i: int,
)
    requires
        0 <= i < regions.len(),
    ensures
        regions_rewritten(regions, bar_idx, val).len() == regions.len(),
        regions_rewritten(regions, bar_idx, val)[i] == (PciBarConfiguration {
            addr: regions_rewritten(regions, bar_idx, val)[i].addr,
            ..regions[i]
        }),
{
}

/// Whether BAR register `n` is one of those of a region: its own, or, if it is in a 64-bit BAR, the
/// odd one behind that.
pub open spec fn owns_register(region: PciBarConfiguration, n: int) -> bool {
    region.bar_idx == n || (region.region_type == PciBarRegionType::Memory64BitRegion && n % 2 == 1
        && region.bar_idx + 1 == n)
}

/// A guest write of `val` to BAR register `n` moves the first region that has the register, and no
/// other. Its address then has, in the half that the register holds, the bits that were written, of
/// which the lowest four of the lower half are no address bits; a region with one register is at
/// what was written. Whatever else is known of the region stays as it is.
pub proof fn law_bar_write_moves_the_first_owner(
    regions: Seq<PciBarConfiguration>,
    n: u32,
    val: u32,
    k: int,
)
    requires
        0 <= k < regions.len(),
        owns_register(regions[k], n as int),
        forall|j: int| 0 <= j < k ==> !owns_register(#[trigger] regions[j], n as int),
    ensures
        ({
            let after = regions_rewritten(regions, n, val);
            let half = 0x1_0000_0000u64;
            let wide = regions[k].region_type == PciBarRegionType::Memory64BitRegion;
            &&& after.len() == regions.len()
            &&& forall|j: int| 0 <= j < regions.len() && j != k ==> #[trigger] after[j] == regions[j]
            &&& after[k].size == regions[k].size
            &&& after[k].bar_idx == regions[k].bar_idx
            &&& after[k].region_type == regions[k].region_type
            &&& after[k].prefetchable == regions[k].prefetchable
            &&& regions[k].bar_idx == n ==> after[k].addr % half == 16 * (val / 16)
            &&& regions[k].bar_idx == n && wide ==> after[k].addr / half == regions[k].addr / half
            &&& regions[k].bar_idx == n && !wide && regions[k].addr < half ==> after[k].addr == 16 * (
            val / 16)
            &&& regions[k].bar_idx != n ==> after[k].addr / half == val
            &&& regions[k].bar_idx != n ==> after[k].addr % half == regions[k].addr % half
        }),
{
    assert(first_at_register(regions, n, k));
    lemma_register_owner_is_unique(regions, n, k);
    let region = regions[k];
    let after = region.rewritten(n, val);
    assert(regions_rewritten(regions, n, val) == regions.update(k, after));
    if region.bar_idx == n {
        assert(after.addr == region.addr - region.addr % 0x1_0000_0000 + (val - val % 16)
            || after.addr == val - val % 16);
    } else {
        assert(after.addr == 0x1_0000_0000 * val + region.addr % 0x1_0000_0000);
    }
}

/// A guest write to a BAR register that no region has moves nothing.
pub proof fn law_unowned_bar_write_moves_nothing(
    regions: Seq<PciBarConfiguration>,
    n: u32,
    val: u32,
)
    requires
        forall|j: int| 0 <= j < regions.len() ==> !owns_register(#[trigger] regions[j], n as int),
    ensures
        regions_rewritten(regions, n, val) == regions,
{
    assert forall|k: int| !first_at_register(regions, n, k) by {
        if 0 <= k < regions.len() {
            assert(!owns_register(regions[k], n as int));
        }
    }
}

} // verus!
