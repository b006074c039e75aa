//! Finds out what regions the BARs of a device describe, and places them.
//!
//! A BAR tells the size of its region by the address bits that read back as zero after ones were
//! written to all of them. A [`BarProbe`] says which access to make next, and the reply is handed
//! back.
use vstd::prelude::*;

use crate::bar::{PciBarConfiguration, PciBarPrefetchable, PciBarRegionType};
use crate::bytes::lemma_low_half;
use crate::device::{DeviceData, DeviceView, PciAddress, VfioPciDevice, INTEL_VENDOR_ID};
use crate::error::PciDeviceError;

verus! {

/// Index of the region of the expansion ROM, which follows those of the BARs.
pub const VFIO_PCI_ROM_REGION_INDEX: u32 = 6;

/// Where guest addresses are allocated from.
#[derive(Clone, Copy, PartialEq, Eq, Structural, Debug)]
pub enum MmioType {
    /// Below four gigabytes.
    Low,
    High,
}

/// What to do next to find and place the regions of a device.
#[derive(Clone, Copy, PartialEq, Eq, Structural, Debug)]
pub enum BarProbe {
    /// Write ones to the register of BAR `i`.
    WriteLow { i: u32 },
    /// Read it.
    ReadLow { i: u32 },
    /// Write ones to the register of the upper half.
    WriteUpper { i: u32, low: u32 },
    /// Read it.
    ReadUpper { i: u32, low: u32 },
    /// Allocate guest addresses for the region, aligned to its size.
    Allocate { i: u32, low: u32, size: u64 },
    /// Write the address of the region to the register of BAR `i`.
    StoreLow { i: u32, low: u32, addr: u64 },
    /// Write its upper half.
    StoreUpper { i: u32, low: u32, addr: u64 },
    /// Read the first byte of the command register.
    ReadCommand,
    /// Write this to it.
    StoreCommand { value: u8 },
    /// Nothing is left to be done.
    Done,
}

/// The config space register of BAR `i`.
pub open spec fn bar_register(i: u32) -> u32 {
    if i == 6 {
        0x30
    } else {
        (0x10 + 4 * i) as u32
    }
}

/// Whether a BAR that reads `low` after ones were written takes two registers.
pub open spec fn bar_is_64bit(low: u32) -> bool {
    low / 4 % 2 == 1
}

/// Whether a BAR that reads `low` after ones were written takes two registers.
fn is_64bit(low: u32) -> (r: bool)
    ensures
        r == bar_is_64bit(low),
        r <==> low / 4 % 2 == 1,
{
    assert((low & 0x4 == 0x4) == (low / 4 % 2 == 1)) by (bit_vector);
    low & 0x4 == 0x4
}

/// Whether BAR `i`, which reads `low` after ones were written, describes a memory region.
pub open spec fn describes_memory(i: u32, low: u32) -> bool {
    low != 0 && (low % 2 == 0 || i == 6)
}

/// Whether BAR `i`, which reads `low` after ones were written, describes an I/O region.
pub open spec fn describes_io(i: u32, low: u32) -> bool {
    low % 2 == 1 && i != 6
}

/// The size of the memory region of a BAR of which `low` and `upper` were read back.
pub open spec fn memory_size(low: u32, upper: u32) -> int {
    0x1_0000_0000_0000_0000 - (0x1_0000_0000 * upper + (low - low % 16))
}

/// The size of the I/O region of a BAR of which `low` was read back.
pub open spec fn io_size(low: u32) -> int {
    0x1_0000_0000 - (low - low % 4)
}

/// The memory region of BAR `i`, of which `low` was read back, at `addr`.
pub open spec fn memory_region(i: u32, low: u32, size: u64, addr: u64) -> PciBarConfiguration {
    PciBarConfiguration {
        addr,
        size,
        bar_idx: i as usize,
        region_type: if bar_is_64bit(low) {
            PciBarRegionType::Memory64BitRegion
        } else {
            PciBarRegionType::Memory32BitRegion
        },
        prefetchable: if low / 8 % 2 == 1 {
            PciBarPrefetchable::Prefetchable
        } else {
            PciBarPrefetchable::NotPrefetchable
        },
    }
}

/// The I/O region of BAR `i`, of which `low` was read back.
pub open spec fn io_region(i: u32, low: u32) -> PciBarConfiguration {
    PciBarConfiguration {
        addr: 0,
        size: io_size(low) as u64,
        bar_idx: i as usize,
        region_type: PciBarRegionType::IoRegion,
        prefetchable: PciBarPrefetchable::NotPrefetchable,
    }
}

/// The progress of the allocation.
#[verifier::ext_equal]
pub struct AllocationView {
    pub at: BarProbe,
    /// The address ranges allocated, as pairs of start and size.
    pub ranges: Seq<(u64, u64)>,
}

/// The progress of the allocation.
pub struct BarAllocation {
    pub at: BarProbe,
    /// The address ranges allocated, as pairs of start and size.
    pub ranges: Vec<(u64, u64)>,
}

impl View for BarAllocation {
    type V = AllocationView;

    open spec fn view(&self) -> AllocationView {
        AllocationView { at: self.at, ranges: self.ranges@ }
    }
}

impl BarProbe {
    /// The BAR that is looked at exists.
    pub open spec fn wf(self) -> bool {
        match self {
            BarProbe::WriteLow { i } => i <= 6,
            BarProbe::ReadLow { i } => i <= 6,
            BarProbe::WriteUpper { i, low } => i <= 6 && describes_memory(i, low),
            BarProbe::ReadUpper { i, low } => i <= 6 && describes_memory(i, low),
            BarProbe::Allocate { i, low, .. } => i <= 6 && describes_memory(i, low),
            BarProbe::StoreLow { i, .. } => i <= 6,
            BarProbe::StoreUpper { i, .. } => i <= 6,
            _ => true,
        }
    }

    /// The register that is to be written next and what to write, if that is next.
    pub open spec fn write_wanted(self) -> Option<(u32, u32)> {
        match self {
            BarProbe::WriteLow { i } => Some((bar_register(i), 0xffffffff)),
            BarProbe::WriteUpper { i, .. } => Some(((bar_register(i) + 4) as u32, 0xffffffff)),
            BarProbe::StoreLow { i, low, addr } => Some(
                (bar_register(i), (addr % 0x1_0000_0000) as u32 | (low % 16)),
            ),
            BarProbe::StoreUpper { i, addr, .. } => Some(
                ((bar_register(i) + 4) as u32, (addr / 0x1_0000_0000) as u32),
            ),
            _ => None,
        }
    }

    /// The register that is to be read next, if that is next.
    pub open spec fn read_wanted(self) -> Option<u32> {
        match self {
            BarProbe::ReadLow { i } => Some(bar_register(i)),
            BarProbe::ReadUpper { i, .. } => Some((bar_register(i) + 4) as u32),
            _ => None,
        }
    }

    /// Whether the size of the region can be computed from `value`, read from the wanted register.
    ///
    /// A region of the whole address space has no size that fits in as many bits.
    pub open spec fn size_fits(self, value: u32) -> bool {
        match self {
            BarProbe::ReadLow { i } => describes_io(i, value) ==> value >= 4,
            BarProbe::ReadUpper { low, .. } => value != 0 || low >= 16,
            _ => true,
        }
    }

    /// The register that is to be written next and what to write, if that is next.
    pub fn next_write(&self) -> (r: Option<(u32, u32)>)
        requires
            self.wf(),
        ensures
            r == self.write_wanted(),
    {
        match *self {
            BarProbe::WriteLow { i } => Some((Self::register(i), 0xffffffff)),
            BarProbe::WriteUpper { i, .. } => Some((Self::register(i) + 4, 0xffffffff)),
            BarProbe::StoreLow { i, low, addr } => {
                proof {
                    lemma_low_half(addr);
                }
                assert(low & 0xf == low % 16) by (bit_vector);
                Some((Self::register(i), addr as u32 | (low & 0xf)))
            },
            BarProbe::StoreUpper { i, addr, .. } => {
                assert((addr >> 32) as u32 == addr / 0x1_0000_0000) by (bit_vector);
                Some((Self::register(i) + 4, (addr >> 32) as u32))
            },
            _ => None,
        }
    }

    /// The register that is to be read next, if that is next.
    pub fn next_read(&self) -> (r: Option<u32>)
        requires
            self.wf(),
        ensures
            r == self.read_wanted(),
    {
        match *self {
            BarProbe::ReadLow { i } => Some(Self::register(i)),
            BarProbe::ReadUpper { i, .. } => Some(Self::register(i) + 4),
            _ => None,
        }
    }

    /// Whether the size of the region can be computed from `value`, read from the wanted register.
    pub fn accepts(&self, value: u32) -> (r: bool)
        ensures
            r == self.size_fits(value),
    {
        match *self {
            BarProbe::ReadLow { i } => value % 2 == 0 || i == VFIO_PCI_ROM_REGION_INDEX || value
                >= 4,
            BarProbe::ReadUpper { low, .. } => value != 0 || low >= 16,
            _ => true,
        }
    }

    fn register(i: u32) -> (r: u32)
        requires
            i <= 6,
        ensures
            r == bar_register(i),
    {
        if i == VFIO_PCI_ROM_REGION_INDEX {
            0x30
        } else {
            0x10 + i * 4
        }
    }
}

impl DeviceView {
    /// Goes on with the BAR after BAR `i`, of which `low` was read back.
    pub open spec fn next_bar(self, i: u32, low: u32) -> BarProbe {
        let n = i + (if bar_is_64bit(low) {
            2int
        } else {
            1
        });
        if n <= 6 {
            BarProbe::WriteLow { i: n as u32 }
        } else if self.intel_gfx() {
            BarProbe::ReadCommand
        } else {
            BarProbe::Done
        }
    }

    /// The device with the memory region of BAR `i` at `addr`.
    pub open spec fn with_memory(self, i: u32, low: u32, size: u64, addr: u64) -> DeviceView {
        DeviceView {
            mmio_regions: self.mmio_regions.push(memory_region(i, low, size, addr)),
            ..self
        }
    }

    /// Goes on with a memory region of known size.
    ///
    /// The region of a hot-plugged device is not placed: the guest allocates its address from the
    /// window of the bridge.
    pub open spec fn sized(self, i: u32, low: u32, upper: u32) -> (DeviceView, BarProbe) {
        let size = memory_size(low, upper) as u64;
        if self.hotplug_bus_number is None {
            (self, BarProbe::Allocate { i, low, size })
        } else {
            (self.with_memory(i, low, size, 0), BarProbe::StoreLow { i, low, addr: 0 })
        }
    }

    /// Where having written the wanted register leads.
    pub open spec fn bar_written(self, at: BarProbe) -> BarProbe {
        match at {
            BarProbe::WriteLow { i } => BarProbe::ReadLow { i },
            BarProbe::WriteUpper { i, low } => BarProbe::ReadUpper { i, low },
            BarProbe::StoreLow { i, low, addr } => if bar_is_64bit(low) {
                BarProbe::StoreUpper { i, low, addr }
            } else {
                self.next_bar(i, low)
            },
            BarProbe::StoreUpper { i, low, .. } => self.next_bar(i, low),
            _ => at,
        }
    }

    /// Where `value` in the wanted register leads.
    pub open spec fn bar_read(self, at: BarProbe, value: u32) -> (DeviceView, BarProbe) {
        match at {
            BarProbe::ReadLow { i } => if describes_memory(i, value) {
                if bar_is_64bit(value) {
                    (self, BarProbe::WriteUpper { i, low: value })
                } else {
                    self.sized(i, value, 0xffffffff)
                }
            } else if value % 2 == 1 {
                (
                    DeviceView { io_regions: self.io_regions.push(io_region(i, value)), ..self },
                    self.next_bar(i, value),
                )
            } else {
                (self, self.next_bar(i, value))
            },
            BarProbe::ReadUpper { i, low } => self.sized(i, low, value),
            _ => (self, at),
        }
    }
}

impl VfioPciDevice {
    /// Starts to find and place the regions of the device, which has an address.
    pub fn allocate_io_bars(&self) -> (a: BarAllocation)
        requires
            self@.pci_address is Some,
        ensures
            a@ == (AllocationView { at: BarProbe::WriteLow { i: 0 }, ranges: seq![] }),
            a.at.wf(),
    {
        BarAllocation { at: BarProbe::WriteLow { i: 0 }, ranges: Vec::new() }
    }

    fn after_bar(&self, i: u32, low: u32) -> (next: BarProbe)
        requires
            i <= 6,
        ensures
            next == self@.next_bar(i, low),
            next.wf(),
    {
        let n: u32 = if is_64bit(low) {
            i + 2
        } else {
            i + 1
        };
        if n <= VFIO_PCI_ROM_REGION_INDEX {
            BarProbe::WriteLow { i: n }
        } else if self.is_intel_gfx() {
            BarProbe::ReadCommand
        } else {
            BarProbe::Done
        }
    }

    fn add_memory_region(&mut self, i: u32, low: u32, size: u64, addr: u64)
        requires
            i <= 6,
            old(self)@.wf(),
        ensures
            final(self)@ == old(self)@.with_memory(i, low, size, addr),
            final(self)@.wf(),
    {
        assert((low & 0x8 == 0x8) == (low / 8 % 2 == 1)) by (bit_vector);
        let region = PciBarConfiguration::new(
            i as usize,
            size,
            if is_64bit(low) {
                PciBarRegionType::Memory64BitRegion
            } else {
                PciBarRegionType::Memory32BitRegion
            },
            if low & 0x8 == 0x8 {
                PciBarPrefetchable::Prefetchable
            } else {
                PciBarPrefetchable::NotPrefetchable
            },
        ).set_address(addr);
        self.mmio_regions.push(region);
    }

    /// Takes that the wanted register was written.
    pub fn bar_register_written(&self, a: &mut BarAllocation)
        requires
            old(a).at.wf(),
            old(a).at.write_wanted() is Some,
        ensures
            final(a)@ == (AllocationView { at: self@.bar_written(old(a).at), ..old(a)@ }),
            final(a).at.wf(),
    {
        match a.at {
            BarProbe::WriteLow { i } => {
                a.at = BarProbe::ReadLow { i };
            },
            BarProbe::WriteUpper { i, low } => {
                a.at = BarProbe::ReadUpper { i, low };
            },
            BarProbe::StoreLow { i, low, addr } => {
                if is_64bit(low) {
                    a.at = BarProbe::StoreUpper { i, low, addr };
                } else {
                    a.at = self.after_bar(i, low);
                }
            },
            BarProbe::StoreUpper { i, low, .. } => {
                a.at = self.after_bar(i, low);
            },
            _ => {},
        }
    }

    fn region_sized(&mut self, i: u32, low: u32, upper: u32) -> (next: BarProbe)
        requires
            i <= 6,
            describes_memory(i, low),
            upper != 0 || low >= 16,
            old(self)@.wf(),
        ensures
            (final(self)@, next) == old(self)@.sized(i, low, upper),
            final(self)@.wf(),
            next.wf(),
    {
        assert(low & 0xffff_fff0 == low - low % 16) by (bit_vector);
        let low_bits: u64 = (low & 0xffff_fff0) as u64;
        let upper_bits: u64 = upper as u64;
        assert((upper_bits << 32) | low_bits == 0x1_0000_0000 * upper_bits + low_bits)
            by (bit_vector)
            requires
                low_bits <= 0xffffffff,
                upper_bits <= 0xffffffff,
        ;
        let mut size: u64 = (upper_bits << 32) | low_bits;
        assert(!size == 0xffff_ffff_ffff_ffff - size) by (bit_vector);
        size = !size + 1;
        if self.hotplug_bus_number.is_none() {
            BarProbe::Allocate { i, low, size }
        } else {
            self.add_memory_region(i, low, size, 0);
            BarProbe::StoreLow { i, low, addr: 0 }
        }
    }

    /// Takes what was read from the wanted register.
    pub fn bar_register_read(&mut self, a: &mut BarAllocation, value: u32)
        requires
            old(self)@.wf(),
            old(a).at.wf(),
            old(a).at.read_wanted() is Some,
            old(a).at.size_fits(value),
        ensures
            (final(self)@, final(a)@) == (
                old(self)@.bar_read(old(a).at, value).0,
                AllocationView { at: old(self)@.bar_read(old(a).at, value).1, ..old(a)@ },
            ),
            final(self)@.wf(),
            final(a).at.wf(),
    {
        match a.at {
            BarProbe::ReadLow { i } => {
                let low: u32 = value;
                assert((low & 0x1 == 0) == (low % 2 == 0)) by (bit_vector);
                if (low & 0x1 == 0 || i == VFIO_PCI_ROM_REGION_INDEX) && low != 0 {
                    if is_64bit(low) {
                        a.at = BarProbe::WriteUpper { i, low };
                    } else {
                        a.at = self.region_sized(i, low, 0xffffffff);
                    }
                } else if low & 0x1 != 0 {
                    assert(low & 0xffff_fffc == low - low % 4) by (bit_vector);
                    let mask: u32 = low & 0xffff_fffc;
                    assert(!mask == 0xffff_ffff - mask) by (bit_vector);
                    let size: u32 = !mask + 1;
                    let next = self.after_bar(i, low);
                    self.io_regions.push(
                        PciBarConfiguration::new(
                            i as usize,
                            size as u64,
                            PciBarRegionType::IoRegion,
                            PciBarPrefetchable::NotPrefetchable,
                        ),
                    );
                    a.at = next;
                } else {
                    a.at = self.after_bar(i, low);
                }
            },
            BarProbe::ReadUpper { i, low } => {
                a.at = self.region_sized(i, low, value);
            },
            _ => {},
        }
    }

    /// The kind of guest addresses that a region needs.
    pub fn mmio_type(low: u32) -> (t: MmioType)
        ensures
            t == (if bar_is_64bit(low) {
                MmioType::High
            } else {
                MmioType::Low
            }),
            t == MmioType::High <==> low / 4 % 2 == 1,
    {
        if is_64bit(low) {
            MmioType::High
        } else {
            MmioType::Low
        }
    }

    /// Takes the guest address that was allocated, or why there is none.
    pub fn bar_address_allocated(&mut self, a: &mut BarAllocation, addr: Result<u64, String>) -> (r:
        Result<(), PciDeviceError>)
        requires
            old(self)@.wf(),
            old(a).at.wf(),
            old(a).at is Allocate,
        ensures
            match (old(a).at, addr) {
                (BarProbe::Allocate { i, low, size }, Ok(addr)) => {
                    &&& r is Ok
                    &&& final(self)@ == old(self)@.with_memory(i, low, size, addr)
                    &&& final(a)@ == (AllocationView {
                        at: BarProbe::StoreLow { i, low, addr },
                        ranges: old(a)@.ranges.push((addr, size)),
                    })
                },
                (BarProbe::Allocate { size, .. }, Err(reason)) => {
                    &&& r == Err::<(), PciDeviceError>(
                        PciDeviceError::IoAllocationFailed(size, reason),
                    )
                    &&& final(self)@ == old(self)@
                    &&& final(a)@ == old(a)@
                },
                _ => true,
            },
            final(self)@.wf(),
            final(a).at.wf(),
    {
        if let BarProbe::Allocate { i, low, size } = a.at {
            match addr {
                Ok(addr) => {
                    a.ranges.push((addr, size));
                    self.add_memory_region(i, low, size, addr);
                    a.at = BarProbe::StoreLow { i, low, addr };
                },
                Err(reason) => {
                    return Err(PciDeviceError::IoAllocationFailed(size, reason));
                },
            }
        }
        Ok(())
    }

    /// Takes the first byte of the command register of an Intel graphics device.
    ///
    /// Memory space accesses are enabled for such a device, so that the guest's VGA arbiter claims
    /// it.
    pub fn bar_command_read(&self, a: &mut BarAllocation, command: u8)
        requires
            old(a).at == BarProbe::ReadCommand,
        ensures
            final(a)@ == (AllocationView {
                at: BarProbe::StoreCommand {
                    value: if command / 2 % 2 == 1 {
                        command
                    } else {
                        (command + 2) as u8
                    },
                },
                ..old(a)@
            }),
            final(a).at.wf(),
    {
        assert(command | 2 == if command / 2 % 2 == 1 {
            command as int
        } else {
            command + 2
        }) by (bit_vector);
        a.at = BarProbe::StoreCommand { value: command | crate::device::PCI_COMMAND_MEMORY };
    }

    /// Takes that the command register was written.
    pub fn bar_command_written(&self, a: &mut BarAllocation)
        requires
            old(a).at is StoreCommand,
        ensures
            final(a)@ == (AllocationView { at: BarProbe::Done, ..old(a)@ }),
            final(a).at.wf(),
    {
        a.at = BarProbe::Done;
    }
}

/// What the host has for the probing of a device's BARs.
pub struct BarHost {
    /// What the register of a BAR reads back after ones were written.
    pub low: spec_fn(u32) -> u32,
    /// What the register of its upper half reads back after ones were written.
    pub upper: spec_fn(u32) -> u32,
    /// The guest address that is allocated for a BAR.
    pub addr: spec_fn(u32) -> u64,
}

/// The device and the allocation after one more access to `host`. Nothing is done any more once
/// all BARs were looked at.
pub open spec fn bar_step(d: DeviceView, a: AllocationView, host: BarHost) -> (
    DeviceView,
    AllocationView,
) {
    match a.at {
        BarProbe::ReadLow { i } => {
            let (after, at) = d.bar_read(a.at, (host.low)(i));
            (after, AllocationView { at, ..a })
        },
        BarProbe::ReadUpper { i, .. } => {
            let (after, at) = d.bar_read(a.at, (host.upper)(i));
            (after, AllocationView { at, ..a })
        },
        BarProbe::Allocate { i, low, size } => {
            let addr = (host.addr)(i);
            (
                d.with_memory(i, low, size, addr),
                AllocationView {
                    at: BarProbe::StoreLow { i, low, addr },
                    ranges: a.ranges.push((addr, size)),
                },
            )
        },
        _ => (d, AllocationView { at: d.bar_written(a.at), ..a }),
    }
}

/// The device and the allocation after `n` more accesses.
pub open spec fn bar_run(d: DeviceView, a: AllocationView, host: BarHost, n: nat) -> (
    DeviceView,
    AllocationView,
)
    decreases n,
{
    if n == 0 {
        (d, a)
    } else {
        let (d1, a1) = bar_step(d, a, host);
        bar_run(d1, a1, host, (n - 1) as nat)
    }
}

/// The number of the BAR that follows BAR `i`, of which `low` was read back.
pub open spec fn following(i: u32, low: u32) -> u32 {
    if bar_is_64bit(low) {
        (i + 2) as u32
    } else {
        (i + 1) as u32
    }
}

/// The size of the memory region of BAR `i`.
pub open spec fn size_of_bar(host: BarHost, i: u32) -> u64 {
    let low = (host.low)(i);
    memory_size(
        low,
        if bar_is_64bit(low) {
            (host.upper)(i)
        } else {
            0xffffffff
        },
    ) as u64
}

/// The memory regions of BAR `i` and those that follow it, each at its address if `place` holds.
pub open spec fn memory_from(host: BarHost, place: bool, i: u32) -> Seq<PciBarConfiguration>
    decreases 8 - i,
{
    if i > 6 {
        seq![]
    } else {
        let low = (host.low)(i);
        let rest = memory_from(host, place, following(i, low));
        if describes_memory(i, low) {
            let addr = if place {
                (host.addr)(i)
            } else {
                0
            };
            seq![memory_region(i, low, size_of_bar(host, i), addr)] + rest
        } else {
            rest
        }
    }
}

/// The I/O regions of BAR `i` and those that follow it.
pub open spec fn io_from(host: BarHost, i: u32) -> Seq<PciBarConfiguration>
    decreases 8 - i,
{
    if i > 6 {
        seq![]
    } else {
        let low = (host.low)(i);
        let rest = io_from(host, following(i, low));
        if describes_io(i, low) {
            seq![io_region(i, low)] + rest
        } else {
            rest
        }
    }
}

/// The addresses of the memory regions of BAR `i` and those that follow it.
pub open spec fn ranges_from(host: BarHost, i: u32) -> Seq<(u64, u64)>
    decreases 8 - i,
{
    if i > 6 {
        seq![]
    } else {
        let low = (host.low)(i);
        let rest = ranges_from(host, following(i, low));
        if describes_memory(i, low) {
            seq![((host.addr)(i), size_of_bar(host, i))] + rest
        } else {
            rest
        }
    }
}

proof fn lemma_bar_run_add(d: DeviceView, a: AllocationView, host: BarHost, n: nat, m: nat)
    ensures
        ({
            let (d1, a1) = bar_run(d, a, host, n);
            bar_run(d, a, host, n + m) == bar_run(d1, a1, host, m)
        }),
    decreases n,
{
    if n > 0 {
        let (d1, a1) = bar_step(d, a, host);
        lemma_bar_run_add(d1, a1, host, (n - 1) as nat, m);
    }
}

/// The device with what BAR `i` describes.
spec fn one_bar(d: DeviceView, host: BarHost, i: u32) -> DeviceView {
    let low = (host.low)(i);
    if describes_memory(i, low) {
        d.with_memory(
            i,
            low,
            size_of_bar(host, i),
            if d.hotplug_bus_number is None {
                (host.addr)(i)
            } else {
                0
            },
        )
    } else if describes_io(i, low) {
        DeviceView { io_regions: d.io_regions.push(io_region(i, low)), ..d }
    } else {
        d
    }
}

/// Looking at one BAR takes a few accesses, after which its region is known.
proof fn lemma_one_bar(d: DeviceView, a: AllocationView, host: BarHost, i: u32) -> (n: nat)
    requires
        i <= 6,
        a.at == (BarProbe::WriteLow { i }),
    ensures
        bar_run(d, a, host, n) == (
            one_bar(d, host, i),
            AllocationView {
                at: d.next_bar(i, (host.low)(i)),
                ranges: if describes_memory(i, (host.low)(i)) && d.hotplug_bus_number is None {
                    a.ranges.push(((host.addr)(i), size_of_bar(host, i)))
                } else {
                    a.ranges
                },
            },
        ),
{
    reveal_with_fuel(bar_run, 8);
    let low = (host.low)(i);
    if !describes_memory(i, low) {
        2
    } else {
        let probing: nat = if bar_is_64bit(low) {
            4
        } else {
            2
        };
        let placing: nat = if d.hotplug_bus_number is None {
            1
        } else {
            0
        };
        let storing: nat = if bar_is_64bit(low) {
            2
        } else {
            1
        };
        probing + placing + storing
    }
}

proof fn lemma_bars_from(d: DeviceView, a: AllocationView, host: BarHost, i: u32) -> (n: nat)
    requires
        i <= 6,
        a.at == (BarProbe::WriteLow { i }),
    ensures
        bar_run(d, a, host, n) == (
            DeviceView {
                mmio_regions: d.mmio_regions + memory_from(host, d.hotplug_bus_number is None, i),
                io_regions: d.io_regions + io_from(host, i),
                ..d
            },
            AllocationView {
                at: if d.intel_gfx() {
                    BarProbe::ReadCommand
                } else {
                    BarProbe::Done
                },
                ranges: if d.hotplug_bus_number is None {
                    a.ranges + ranges_from(host, i)
                } else {
                    a.ranges
                },
            },
        ),
    decreases 8 - i,
{
    let low = (host.low)(i);
    let n = lemma_one_bar(d, a, host, i);
    let (d1, a1) = bar_run(d, a, host, n);
    let place = d.hotplug_bus_number is None;
    let next = following(i, low);
    let m = if next <= 6 {
        lemma_bars_from(d1, a1, host, next)
    } else {
        0
    };
    lemma_bar_run_add(d, a, host, n, m);
    let (d2, a2) = bar_run(d1, a1, host, m);
    assert(d2.mmio_regions =~= d.mmio_regions + memory_from(host, place, i));
    assert(d2.io_regions =~= d.io_regions + io_from(host, i));
    assert(a2.ranges =~= if place {
        a.ranges + ranges_from(host, i)
    } else {
        a.ranges
    });
    n + m
}

/// Where every allocation succeeds, all BARs are looked at in turn, and the device ends with the
/// regions that they describe: its memory regions at the addresses allocated for them, or, if it is
/// hot-plugged, at none.
pub proof fn law_all_bars_are_found(d: DeviceView, host: BarHost)
    ensures
        exists|n: nat|
            #[trigger] bar_run(
                d,
                AllocationView { at: BarProbe::WriteLow { i: 0 }, ranges: seq![] },
                host,
                n,
            ) == (
                DeviceView {
                    mmio_regions: d.mmio_regions + memory_from(
                        host,
                        d.hotplug_bus_number is None,
                        0,
                    ),
                    io_regions: d.io_regions + io_from(host, 0),
                    ..d
                },
                AllocationView {
                    at: if d.intel_gfx() {
                        BarProbe::ReadCommand
                    } else {
                        BarProbe::Done
                    },
                    ranges: if d.hotplug_bus_number is None {
                        ranges_from(host, 0)
                    } else {
                        seq![]
                    },
                },
            ),
{
    let a = AllocationView { at: BarProbe::WriteLow { i: 0 }, ranges: seq![] };
    let n = lemma_bars_from(d, a, host, 0);
    assert(Seq::<(u64, u64)>::empty() + ranges_from(host, 0) =~= ranges_from(host, 0));
    assert(bar_run(d, a, host, n).1.ranges =~= if d.hotplug_bus_number is None {
        ranges_from(host, 0)
    } else {
        seq![]
    });
}

/// A BAR whose address bits below its size read back as zero, and the others as one, has that size.
pub proof fn law_size_is_told_by_the_zero_bits(size: int, flags: u32)
    requires
        flags < 16,
    ensures
        16 <= size <= 0x8000_0000 && size % 16 == 0 ==> memory_size(
            (0x1_0000_0000 - size + flags) as u32,
            0xffffffff,
        ) == size,
        0x1_0000_0000 <= size <= 0x8000_0000_0000_0000 && size % 0x1_0000_0000 == 0 ==> memory_size(
            flags,
            (0x1_0000_0000 - size / 0x1_0000_0000) as u32,
        ) == size,
        4 <= size <= 0x8000_0000 && size % 4 == 0 && flags < 4 ==> io_size(
            (0x1_0000_0000 - size + flags) as u32,
        ) == size,
{
}

/// Type of the regions that a vendor defines for its PCI devices; the vendor is added to it.
pub const VFIO_REGION_TYPE_PCI_VENDOR_TYPE: u32 = 0x8000_0000;

/// Subtype of the region with the opregion of an Intel graphics device.
pub const VFIO_REGION_SUBTYPE_INTEL_IGD_OPREGION: u32 = 1;

/// Where the address of the opregion is found in config space.
pub const OPREGION_REGISTER: u32 = 0xFC;

/// What to do next to place the opregion of an Intel graphics device.
#[derive(Clone, Copy, PartialEq, Eq, Debug)]
pub enum OpregionStep {
    /// Look for a region of this type and subtype: its index and its size.
    FindRegion { type_: u32, subtype: u32 },
    /// Allocate guest addresses below four gigabytes, for the device at `address` and under the
    /// number `bar`.
    Allocate { address: PciAddress, bar: u8, index: u32, size: u64 },
    /// Write this to the register of the opregion.
    WriteRegister { value: u32, range: (u64, u64) },
    /// Nothing is left to be done; this range was allocated, if one was.
    Done { allocated: Option<(u64, u64)> },
}

impl VfioPciDevice {
    /// Starts to place the opregion, if the device is an Intel graphics device.
    pub fn allocate_device_bars(&self) -> (next: OpregionStep)
        ensures
            next == (if self@.intel_gfx() {
                OpregionStep::FindRegion { type_: 0x8000_8086, subtype: 1 }
            } else {
                OpregionStep::Done { allocated: None }
            }),
    {
        if !self.is_intel_gfx() {
            return OpregionStep::Done { allocated: None };
        }
        assert(0x8000_0000u32 | 0x8086u32 == 0x8000_8086) by (bit_vector);
        OpregionStep::FindRegion {
            type_: VFIO_REGION_TYPE_PCI_VENDOR_TYPE | (INTEL_VENDOR_ID as u32),
            subtype: VFIO_REGION_SUBTYPE_INTEL_IGD_OPREGION,
        }
    }

    /// Takes the index and the size of the region with the opregion, if there is one.
    pub fn opregion_found(&self, region: Option<(u32, u64)>) -> (next: OpregionStep)
        requires
            region matches Some((index, _)) ==> self@.pci_address is Some && index * 4 <= u32::MAX,
        ensures
            next == (match region {
                Some((index, size)) => OpregionStep::Allocate {
                    address: self@.pci_address->0,
                    bar: (index * 4 % 256) as u8,
                    index,
                    size,
                },
                None => OpregionStep::Done { allocated: None },
            }),
    {
        match (region, self.pci_address) {
            (Some((index, size)), Some(address)) => {
                let number: u32 = index * 4;
                assert(number as u8 == number % 256) by (bit_vector);
                OpregionStep::Allocate { address, bar: number as u8, index, size }
            },
            _ => OpregionStep::Done { allocated: None },
        }
    }

    /// Takes the guest address that was allocated for the opregion, or why there is none.
    ///
    /// The opregion becomes a memory region of the device.
    pub fn opregion_allocated(&mut self, index: u32, size: u64, addr: Result<u64, String>) -> (r:
        Result<OpregionStep, PciDeviceError>)
        requires
            old(self)@.wf(),
        ensures
            match addr {
                Ok(addr) => {
                    &&& r == Ok::<OpregionStep, PciDeviceError>(
                        OpregionStep::WriteRegister {
                            value: (addr % 0x1_0000_0000) as u32,
                            range: (addr, size),
                        },
                    )
                    &&& final(self)@ == (DeviceView {
                        device_data: Some(DeviceData::IntelGfxData { opregion_index: index }),
                        mmio_regions: old(self)@.mmio_regions.push(
                            PciBarConfiguration {
                                addr,
                                size,
                                bar_idx: index as usize,
                                region_type: PciBarRegionType::Memory32BitRegion,
                                prefetchable: PciBarPrefetchable::NotPrefetchable,
                            },
                        ),
                        ..old(self)@
                    })
                },
                Err(reason) => {
                    &&& r == Err::<OpregionStep, PciDeviceError>(
                        PciDeviceError::IoAllocationFailed(size, reason),
                    )
                    &&& final(self)@ == old(self)@
                },
            },
            final(self)@.wf(),
    {
        match addr {
            Ok(addr) => {
                self.device_data = Some(DeviceData::IntelGfxData { opregion_index: index });
                self.mmio_regions.push(
                    PciBarConfiguration::new(
                        index as usize,
                        size,
                        PciBarRegionType::Memory32BitRegion,
                        PciBarPrefetchable::NotPrefetchable,
                    ).set_address(addr),
                );
                proof {
                    lemma_low_half(addr);
                }
                Ok(OpregionStep::WriteRegister { value: addr as u32, range: (addr, size) })
            },
            Err(reason) => Err(PciDeviceError::IoAllocationFailed(size, reason)),
        }
    }

    /// Takes that the register of the opregion was written.
    pub fn opregion_register_written(range: (u64, u64)) -> (next: OpregionStep)
        ensures
            next == (OpregionStep::Done { allocated: Some(range) }),
    {
        OpregionStep::Done { allocated: Some(range) }
    }
}

/// A guest write that falls in the opregion has no effect, and a guest read that does so reaches the
/// host device if there are no registers of MSI-X to be emulated.
pub proof fn law_opregion_is_read_only(d: DeviceView, addr: int)
    requires
        d.device_data is Some,
        crate::device::region_at(d.mmio_regions, addr) matches Some(region)
            && d.device_data->0->opregion_index == region.bar_idx as u32,
    ensures
        d.write_target(addr) == crate::device::BarTarget::Nothing,
        d.msix_cap is None ==> d.read_target(addr) is Region,
{
}

/// What a BAR is, by the flags that its register reads back after ones were written. With bit 0 set it
/// describes an I/O region, unless it is that of the ROM, and otherwise a memory region, unless it
/// reads zero. With bit 2 set it takes two registers, whether or not bit 3 is set: the upper register
/// of a memory region is then probed, and the BAR looked at next is the one after the next. With bit 3
/// set a memory region is prefetchable.
pub proof fn law_flags_tell_what_a_bar_is(d: DeviceView, i: u32, low: u32, size: u64, addr: u64)
    requires
        i <= 6,
    ensures
        ({
            let wide = low / 4 % 2 == 1;
            let memory = low != 0 && (low % 2 == 0 || i == 6);
            let io = low % 2 == 1 && i != 6;
            let (after, next) = d.bar_read(BarProbe::ReadLow { i }, low);
            let n = if wide {
                i + 2
            } else {
                i + 1
            };
            let region = d.with_memory(i, low, size, addr).mmio_regions.last();
            let other = after.io_regions.last();
            &&& d.next_bar(i, low) == (if n <= 6 {
                BarProbe::WriteLow { i: n as u32 }
            } else if d.device_data is Some {
                BarProbe::ReadCommand
            } else {
                BarProbe::Done
            })
            &&& memory && wide ==> after == d && next == (BarProbe::WriteUpper { i, low })
            &&& memory && !wide && d.hotplug_bus_number is None ==> after == d && next == (
            BarProbe::Allocate { i, low, size: (0x1_0000_0000 - 16 * (low / 16)) as u64 })
            &&& memory && !wide && d.hotplug_bus_number is Some ==> next == (BarProbe::StoreLow {
                i,
                low,
                addr: 0,
            }) && after == d.with_memory(i, low, (0x1_0000_0000 - 16 * (low / 16)) as u64, 0)
            &&& io ==> after.io_regions.drop_last() == d.io_regions && after == (DeviceView {
                io_regions: after.io_regions,
                ..d
            }) && other.addr == 0 && other.bar_idx == i && other.region_type
                == PciBarRegionType::IoRegion && other.prefetchable
                == PciBarPrefetchable::NotPrefetchable && other.size + 4 * (low / 4)
                == 0x1_0000_0000 && next == d.next_bar(i, low)
            &&& !memory && !io ==> after == d && next == d.next_bar(i, low)
            &&& d.with_memory(i, low, size, addr) == (DeviceView {
                mmio_regions: d.mmio_regions.push(region),
                ..d
            })
            &&& region.addr == addr && region.size == size && region.bar_idx == i
            &&& region.region_type == (if wide {
                PciBarRegionType::Memory64BitRegion
            } else {
                PciBarRegionType::Memory32BitRegion
            })
            &&& region.prefetchable == (if low / 8 % 2 == 1 {
                PciBarPrefetchable::Prefetchable
            } else {
                PciBarPrefetchable::NotPrefetchable
            })
        }),
{
    let (after, next) = d.bar_read(BarProbe::ReadLow { i }, low);
    if low % 2 == 1 && i != 6 {
        assert(after.io_regions.drop_last() =~= d.io_regions);
    }
    assert(d.with_memory(i, low, size, addr).mmio_regions.last() == memory_region(
        i,
        low,
        size,
        addr,
    ));
}

/// The size of a memory region and the address bits that were read back of both of its registers make
/// up the whole 64-bit address space. Unless the device is hot-plugged, so many addresses are then
/// asked for; otherwise the region is kept without an address, and zero is stored in its registers.
pub proof fn law_both_registers_tell_the_size(d: DeviceView, i: u32, low: u32, upper: u32)
    requires
        i <= 6,
        upper != 0 || low >= 16,
    ensures
        ({
            let bits = 0x1_0000_0000 * upper + 16 * (low / 16);
            let (after, next) = d.bar_read(BarProbe::ReadUpper { i, low }, upper);
            match d.hotplug_bus_number {
                None => after == d && next is Allocate && next->Allocate_i == i
                    && next->Allocate_low == low && next->Allocate_size + bits
                    == 0x1_0000_0000_0000_0000,
                Some(_) => next == (BarProbe::StoreLow { i, low, addr: 0 })
                    && after.mmio_regions.len() == d.mmio_regions.len() + 1
                    && after.mmio_regions.last().addr == 0 && after.mmio_regions.last().bar_idx == i
                    && after.mmio_regions.last().size + bits == 0x1_0000_0000_0000_0000,
            }
        }),
{
}

/// BAR `i` has its register at 0x10 and four more for each BAR before it, and the ROM at 0x30; an upper
/// half is in the register behind. Ones are written before a register is read. In the end the register
/// holds the lower half of the address with the flags that the BAR had, and the one behind it, if the
/// BAR takes two, the upper half.
pub proof fn law_registers_of_a_bar(d: DeviceView, i: u32, low: u32, addr: u64)
    requires
        i <= 6,
    ensures
        ({
            let reg: int = if i == 6 {
                0x30
            } else {
                0x10 + 4 * i
            };
            let store = BarProbe::StoreLow { i, low, addr };
            let value = match store.write_wanted() {
                Some((_, v)) => v,
                None => 0,
            };
            &&& BarProbe::WriteLow { i }.write_wanted() == Some((reg as u32, 0xffff_ffffu32))
            &&& d.bar_written(BarProbe::WriteLow { i }) == (BarProbe::ReadLow { i })
            &&& BarProbe::ReadLow { i }.read_wanted() == Some(reg as u32)
            &&& BarProbe::WriteUpper { i, low }.write_wanted() == Some(
                ((reg + 4) as u32, 0xffff_ffffu32),
            )
            &&& d.bar_written(BarProbe::WriteUpper { i, low }) == (BarProbe::ReadUpper { i, low })
            &&& BarProbe::ReadUpper { i, low }.read_wanted() == Some((reg + 4) as u32)
            &&& store.write_wanted() == Some((reg as u32, value))
            &&& value / 16 == addr % 0x1_0000_0000 / 16
            &&& addr % 16 == 0 ==> value % 16 == low % 16
            &&& d.bar_written(store) == (if low / 4 % 2 == 1 {
                BarProbe::StoreUpper { i, low, addr }
            } else {
                d.next_bar(i, low)
            })
            &&& BarProbe::StoreUpper { i, low, addr }.write_wanted() == Some(
                ((reg + 4) as u32, (addr / 0x1_0000_0000) as u32),
            )
            &&& d.bar_written(BarProbe::StoreUpper { i, low, addr }) == d.next_bar(i, low)
        }),
{
    let half = (addr % 0x1_0000_0000) as u32;
    let flags = low % 16;
    assert((half | flags) / 16 == half / 16 && (half % 16 == 0 ==> (half | flags) % 16 == flags))
        by (bit_vector)
        requires
            flags < 16,
    ;
}

/// Whether BAR `b` is looked at when probing goes on at BAR `i`: the BAR behind one with bit 2 set is
/// passed over.
pub open spec fn reached_from(host: BarHost, i: int, b: int) -> bool
    decreases b + 2 - i,
{
    i == b || (i < b && reached_from(
        host,
        if (host.low)(i as u32) / 4 % 2 == 1 {
            i + 2
        } else {
            i + 1
        },
        b,
    ))
}

/// The memory regions found from BAR `i` on are those of the BARs looked at that read back neither
/// zero nor, but for the ROM, with bit 0 set. Each has the size that its registers tell, and the
/// address that was allocated for it, if it was to be placed. They come in the order of their BARs.
pub proof fn law_memory_regions_found(host: BarHost, place: bool, i: u32, b: u32, j: int, k: int)
    requires
        i <= 8,
        b <= 6,
    ensures
        ({
            let found = memory_from(host, place, i);
            let low = (host.low)(b);
            &&& (exists|n: int| 0 <= n < found.len() && (#[trigger] found[n]).bar_idx == b)
                <==> reached_from(host, i as int, b as int) && low != 0 && (low % 2 == 0 || b == 6)
            &&& 0 <= j < found.len() ==> {
                let region = found[j];
                let l = (host.low)(region.bar_idx as u32);
                let wide = l / 4 % 2 == 1;
                let upper: u32 = if wide {
                    (host.upper)(region.bar_idx as u32)
                } else {
                    0xffff_ffff
                };
                &&& i <= region.bar_idx <= 6
                &&& region.addr == (if place {
                    (host.addr)(region.bar_idx as u32)
                } else {
                    0
                })
                &&& (upper != 0 || l >= 16) ==> region.size + 0x1_0000_0000 * upper + 16 * (l / 16)
                    == 0x1_0000_0000_0000_0000
                &&& region.region_type == (if wide {
                    PciBarRegionType::Memory64BitRegion
                } else {
                    PciBarRegionType::Memory32BitRegion
                })
                &&& region.prefetchable == (if l / 8 % 2 == 1 {
                    PciBarPrefetchable::Prefetchable
                } else {
                    PciBarPrefetchable::NotPrefetchable
                })
            }
            &&& 0 <= j < k < found.len() ==> found[j].bar_idx < found[k].bar_idx
        }),
    decreases 8 - i,
{
    reveal_with_fuel(reached_from, 2);
    if i <= 6 {
        let low = (host.low)(i);
        let next = following(i, low);
        let found = memory_from(host, place, i);
        let rest = memory_from(host, place, next);
        let here = describes_memory(i, low);
        let shift: int = if here {
            1
        } else {
            0
        };
        law_memory_regions_found(host, place, next, b, j - shift, k - shift);
        assert forall|n: int| 0 <= n < rest.len() implies rest[n] == #[trigger] found[n + shift] by {}
        if here {
            assert(found[0].bar_idx == i);
            if 0 <= k - 1 < rest.len() {
                law_memory_regions_found(host, place, next, b, k - 1, k - 1);
            }
        }
        if exists|n: int| 0 <= n < rest.len() && (#[trigger] rest[n]).bar_idx == b {
            let n = choose|n: int| 0 <= n < rest.len() && (#[trigger] rest[n]).bar_idx == b;
            assert(found[n + shift].bar_idx == b);
        }
        if exists|n: int| 0 <= n < found.len() && (#[trigger] found[n]).bar_idx == b {
            let n = choose|n: int| 0 <= n < found.len() && (#[trigger] found[n]).bar_idx == b;
            if n >= shift {
                assert(rest[n - shift].bar_idx == b);
            }
        }
    }
}

/// The I/O regions found from BAR `i` on are those of the BARs looked at, but for the ROM, that read
/// back with bit 0 set. Each has the size that its register tells.
pub proof fn law_io_regions_found(host: BarHost, i: u32, b: u32, j: int)
    requires
        i <= 8,
        b <= 6,
    ensures
        ({
            let found = io_from(host, i);
            &&& (exists|n: int| 0 <= n < found.len() && (#[trigger] found[n]).bar_idx == b)
                <==> reached_from(host, i as int, b as int) && (host.low)(b) % 2 == 1 && b != 6
            &&& 0 <= j < found.len() ==> found[j].region_type == PciBarRegionType::IoRegion
                && found[j].size + 4 * ((host.low)(found[j].bar_idx as u32) / 4) == 0x1_0000_0000
        }),
    decreases 8 - i,
{
    reveal_with_fuel(reached_from, 2);
    if i <= 6 {
        let low = (host.low)(i);
        let next = following(i, low);
        let found = io_from(host, i);
        let rest = io_from(host, next);
        let shift: int = if describes_io(i, low) {
            1
        } else {
            0
        };
        law_io_regions_found(host, next, b, j - shift);
        assert forall|n: int| 0 <= n < rest.len() implies rest[n] == #[trigger] found[n + shift] by {}
        if shift == 1 {
            assert(found[0].bar_idx == i);
        }
        if exists|n: int| 0 <= n < rest.len() && (#[trigger] rest[n]).bar_idx == b {
            let n = choose|n: int| 0 <= n < rest.len() && (#[trigger] rest[n]).bar_idx == b;
            assert(found[n + shift].bar_idx == b);
        }
        if exists|n: int| 0 <= n < found.len() && (#[trigger] found[n]).bar_idx == b {
            let n = choose|n: int| 0 <= n < found.len() && (#[trigger] found[n]).bar_idx == b;
            if n >= shift {
                assert(rest[n - shift].bar_idx == b);
            }
        }
    }
}

/// The ranges that were allocated are those of the memory regions, in the same order.
pub proof fn law_ranges_are_those_of_the_regions(host: BarHost, i: u32, j: int)
    requires
        i <= 8,
    ensures
        ranges_from(host, i).len() == memory_from(host, true, i).len(),
        0 <= j < ranges_from(host, i).len() ==> ranges_from(host, i)[j] == (
            memory_from(host, true, i)[j].addr,
            memory_from(host, true, i)[j].size,
        ),
    decreases 8 - i,
{
    if i <= 6 {
        let low = (host.low)(i);
        let shift: int = if describes_memory(i, low) {
            1
        } else {
            0
        };
        law_ranges_are_those_of_the_regions(host, following(i, low), j - shift);
    }
}

/// Every BAR that reads back an address bit can be sized, and any register that reads zero.
pub proof fn law_bars_with_address_bits_can_be_sized(i: u32, low: u32, value: u32)
    ensures
        value >= 16 || value == 0 ==> (BarProbe::ReadLow { i }).size_fits(value),
        value % 2 == 0 ==> (BarProbe::ReadLow { i }).size_fits(value),
        value != 0 || low >= 16 ==> (BarProbe::ReadUpper { i, low }).size_fits(value),
{
}

} // verus!
