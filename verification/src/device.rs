//! A PCI device of the host that is passed through to a guest.
use vstd::prelude::*;

use crate::bar::PciBarConfiguration;
use crate::capability_scan::{CapabilityScan, ScanState};
use crate::error::PciDeviceError;
use crate::msi::{RawDescriptor, VfioMsiCap, VmIrqRequest};
use crate::msix::VfioMsixCap;

verus! {

pub const INTEL_VENDOR_ID: u16 = 0x8086;

/// Base class of display controllers.
pub const DISPLAY_CONTROLLER_CLASS: u8 = 0x03;

/// Offset of the command register in config space.
pub const PCI_COMMAND: u32 = 0x4;

/// Command register: the device responds to memory space accesses.
pub const PCI_COMMAND_MEMORY: u8 = 0x2;

/// A mapping of device memory into the guest.
pub type MemSlot = u32;

/// A place on a PCI bus.
#[derive(Clone, Copy, PartialEq, Eq, Structural, Debug)]
pub struct PciAddress {
    pub bus: u8,
    pub dev: u8,
    pub func: u8,
}

/// A kind of interrupt that a device delivers.
#[derive(Clone, Copy, PartialEq, Eq, Structural, Debug)]
pub enum VfioIrqType {
    Intx,
    Msi,
    Msix,
}

/// What is kept about particular kinds of device.
#[derive(Clone, Copy, PartialEq, Eq, Structural, Debug)]
pub enum DeviceData {
    /// An Intel graphics device, and the index of the region that holds its opregion.
    IntelGfxData { opregion_index: u32 },
}

/// A host PCI device passed through to a guest.
///
/// Objects of the host (events, sockets) are kept as their descriptors.
pub struct VfioPciDevice {
    pub device_name: String,
    /// A hot-plugged device has its bus number specified at creation.
    pub hotplug_bus_number: Option<u8>,
    pub pci_address: Option<PciAddress>,
    pub interrupt_evt: Option<RawDescriptor>,
    pub interrupt_resample_evt: Option<RawDescriptor>,
    pub mmio_regions: Vec<PciBarConfiguration>,
    pub io_regions: Vec<PciBarConfiguration>,
    pub msi_cap: Option<VfioMsiCap>,
    pub msix_cap: Option<VfioMsixCap>,
    pub irq_type: Option<VfioIrqType>,
    pub vm_socket_mem: RawDescriptor,
    pub device_data: Option<DeviceData>,
    pub kill_evt: Option<RawDescriptor>,
    /// Whether the worker thread was started.
    pub worker_thread: bool,
    pub vm_socket_vm: Option<RawDescriptor>,
    pub mmap_slots: Vec<MemSlot>,
    /// Whether the BARs have to be mapped anew.
    pub remap: bool,
}

/// The state of a device.
#[verifier::ext_equal]
pub struct DeviceView {
    pub device_name: Seq<char>,
    pub hotplug_bus_number: Option<u8>,
    pub pci_address: Option<PciAddress>,
    pub interrupt_evt: Option<RawDescriptor>,
    pub interrupt_resample_evt: Option<RawDescriptor>,
    pub mmio_regions: Seq<PciBarConfiguration>,
    pub io_regions: Seq<PciBarConfiguration>,
    pub msi_cap: Option<VfioMsiCap>,
    pub msix_cap: Option<VfioMsixCap>,
    pub irq_type: Option<VfioIrqType>,
    pub vm_socket_mem: RawDescriptor,
    pub device_data: Option<DeviceData>,
    pub kill_evt: Option<RawDescriptor>,
    pub worker_thread: bool,
    pub vm_socket_vm: Option<RawDescriptor>,
    pub mmap_slots: Seq<MemSlot>,
    pub remap: bool,
}

impl View for VfioPciDevice {
    type V = DeviceView;

    open spec fn view(&self) -> DeviceView {
        DeviceView {
            device_name: self.device_name@,
            hotplug_bus_number: self.hotplug_bus_number,
            pci_address: self.pci_address,
            interrupt_evt: self.interrupt_evt,
            interrupt_resample_evt: self.interrupt_resample_evt,
            mmio_regions: self.mmio_regions@,
            io_regions: self.io_regions@,
            msi_cap: self.msi_cap,
            msix_cap: self.msix_cap,
            irq_type: self.irq_type,
            vm_socket_mem: self.vm_socket_mem,
            device_data: self.device_data,
            kill_evt: self.kill_evt,
            worker_thread: self.worker_thread,
            vm_socket_vm: self.vm_socket_vm,
            mmap_slots: self.mmap_slots@,
            remap: self.remap,
        }
    }
}

impl DeviceView {
    /// The capabilities are well formed, 64-bit BARs have registers, and memory regions are kept
    /// apart from I/O regions.
    pub open spec fn wf(&self) -> bool {
        &&& self.msi_cap matches Some(cap) ==> cap.wf()
        &&& self.msix_cap matches Some(cap) ==> cap.wf()
        &&& crate::bar::registers_exist(self.mmio_regions)
        &&& crate::bar::all_memory(self.mmio_regions)
        &&& crate::bar::all_io(self.io_regions)
    }

    /// Whether the device is an Intel graphics device.
    pub open spec fn intel_gfx(&self) -> bool {
        self.device_data is Some
    }

    /// A device that was scanned, before anything was done with it.
    pub open spec fn scanned(
        device_name: Seq<char>,
        hotplug_bus_number: Option<u8>,
        scan: CapabilityScan,
        vm_socket_mem: RawDescriptor,
        vm_socket_vm: Option<RawDescriptor>,
    ) -> DeviceView {
        DeviceView {
            device_name,
            hotplug_bus_number,
            pci_address: None,
            interrupt_evt: None,
            interrupt_resample_evt: None,
            mmio_regions: seq![],
            io_regions: seq![],
            msi_cap: scan.msi_cap,
            msix_cap: scan.msix_cap,
            irq_type: None,
            vm_socket_mem,
            device_data: if scan.state == (ScanState::Done {
                vendor_id: 0x8086,
                class_code: 0x03,
            }) {
                Some(DeviceData::IntelGfxData { opregion_index: u32::MAX })
            } else {
                None
            },
            kill_evt: None,
            worker_thread: false,
            vm_socket_vm,
            mmap_slots: seq![],
            remap: true,
        }
    }
}

/// The first of `regions` that holds `addr`.
pub open spec fn region_at(regions: Seq<PciBarConfiguration>, addr: int) -> Option<
    PciBarConfiguration,
>
    decreases regions.len(),
{
    if regions.len() == 0 {
        None
    } else if regions[0].holds(addr) {
        Some(regions[0])
    } else {
        region_at(regions.drop_first(), addr)
    }
}

/// Whether the end of each of `regions` that is looked at for `addr` can be computed in 64 bits.
pub open spec fn ends_fit(regions: Seq<PciBarConfiguration>, addr: int) -> bool {
    forall|k: int|
        0 <= k < regions.len() && (#[trigger] regions[k]).addr <= addr && (forall|j: int|
            0 <= j < k ==> !(#[trigger] regions[j]).holds(addr)) ==> regions[k].addr
            + regions[k].size <= u64::MAX
}

/// The first of `regions` that BAR `bar_num` describes.
pub open spec fn region_of_bar(regions: Seq<PciBarConfiguration>, bar_num: usize) -> Option<
    PciBarConfiguration,
>
    decreases regions.len(),
{
    if regions.len() == 0 {
        None
    } else if regions[0].bar_idx == bar_num {
        Some(regions[0])
    } else {
        region_of_bar(regions.drop_first(), bar_num)
    }
}

/// What a guest access to a BAR is directed to.
#[derive(Clone, Copy, PartialEq, Eq, Structural, Debug)]
pub enum BarTarget {
    /// Nothing: the access has no effect.
    Nothing,
    /// This offset in the emulated MSI-X table.
    MsixTable { offset: u64 },
    /// This offset in the emulated pending bit array.
    MsixPba { offset: u64 },
    /// This offset in a region of the host device.
    Region { index: u32, offset: u64 },
}

impl DeviceView {
    /// What a read at the guest address `addr` is directed to.
    pub open spec fn read_target(&self, addr: int) -> BarTarget {
        match region_at(self.mmio_regions, addr) {
            None => BarTarget::Nothing,
            Some(region) => {
                let offset = addr - region.addr;
                let index = region.bar_idx as u32;
                match self.msix_cap {
                    Some(cap) if cap.in_table(index, offset) => BarTarget::MsixTable {
                        offset: (offset - cap.table_offset) as u64,
                    },
                    Some(cap) if cap.in_pba(index, offset) => BarTarget::MsixPba {
                        offset: (offset - cap.pba_offset) as u64,
                    },
                    _ => BarTarget::Region { index, offset: offset as u64 },
                }
            },
        }
    }

    /// What a write at the guest address `addr` is directed to: the same as a read, but that
    /// writes to the opregion of an Intel graphics device have no effect.
    pub open spec fn write_target(&self, addr: int) -> BarTarget {
        match (region_at(self.mmio_regions, addr), self.device_data) {
            (
                Some(region),
                Some(DeviceData::IntelGfxData { opregion_index }),
            ) if region.bar_idx as u32 == opregion_index => BarTarget::Nothing,
            _ => self.read_target(addr),
        }
    }

    /// The region that BAR `bar_num` describes. Memory regions come before I/O regions.
    pub open spec fn bar_region(&self, bar_num: usize) -> Option<PciBarConfiguration> {
        region_of_bar(self.mmio_regions + self.io_regions, bar_num)
    }
}

/// How the address of the device is reserved.
pub enum AddressAllocation {
    /// Reserve this address, and tell [`VfioPciDevice::address_reserved`] whether that worked.
    Reserve(PciAddress),
    /// The device has this address already.
    Allocated(PciAddress),
}

/// Something to be done when a device is closed.
#[derive(Clone, Copy, PartialEq, Eq, Structural, Debug)]
pub enum CloseAction {
    /// Send this request to the VM, whatever comes back.
    VmIrq(VmIrqRequest),
    /// Give the interrupts of the emulated MSI-X table back.
    DestroyMsix,
    /// Unregister this mapping, whatever comes back.
    UnregisterMemory(MemSlot),
    /// Close the host device.
    CloseDevice,
}

impl VfioPciDevice {
    /// Constructs a device from a finished scan of its config space.
    pub fn new(
        device_name: String,
        hotplug_bus_number: Option<u8>,
        scan: CapabilityScan,
        vm_socket_mem: RawDescriptor,
        vm_socket_vm: Option<RawDescriptor>,
    ) -> (dev: Self)
        requires
            scan.wf(),
            scan.state is Done,
        ensures
            dev@ == DeviceView::scanned(
                device_name@,
                hotplug_bus_number,
                scan,
                vm_socket_mem,
                vm_socket_vm,
            ),
            dev@.wf(),
    {
        let device_data = match scan.state {
            ScanState::Done { vendor_id, class_code } if vendor_id == INTEL_VENDOR_ID && class_code
                == DISPLAY_CONTROLLER_CLASS => Some(
                DeviceData::IntelGfxData { opregion_index: u32::MAX },
            ),
            _ => None,
        };
        VfioPciDevice {
            device_name,
            hotplug_bus_number,
            pci_address: None,
            interrupt_evt: None,
            interrupt_resample_evt: None,
            mmio_regions: Vec::new(),
            io_regions: Vec::new(),
            msi_cap: scan.msi_cap,
            msix_cap: scan.msix_cap,
            irq_type: None,
            vm_socket_mem,
            device_data,
            kill_evt: None,
            worker_thread: false,
            vm_socket_vm,
            mmap_slots: Vec::new(),
            remap: true,
        }
    }

    /// Whether the device is an Intel graphics device.
    pub fn is_intel_gfx(&self) -> (r: bool)
        ensures
            r == self@.intel_gfx(),
    {
        match self.device_data {
            Some(DeviceData::IntelGfxData { .. }) => true,
            None => false,
        }
    }

    /// Whether the end of each memory region that is looked at for `addr` can be computed in 64 bits.
    pub fn region_ends_fit(&self, addr: u64) -> (ok: bool)
        ensures
            ok == ends_fit(self@.mmio_regions, addr as int),
    {
        let mut k: usize = 0;
        while k < self.mmio_regions.len()
            invariant
                0 <= k <= self.mmio_regions@.len(),
                forall|j: int| 0 <= j < k ==> !(#[trigger] self.mmio_regions@[j]).holds(addr as int),
                forall|j: int|
                    0 <= j < k && (#[trigger] self.mmio_regions@[j]).addr <= addr
                        ==> self.mmio_regions@[j].addr + self.mmio_regions@[j].size <= u64::MAX,
            decreases self.mmio_regions@.len() - k,
        {
            let region: PciBarConfiguration = self.mmio_regions[k];
            if addr >= region.addr {
                match region.addr.checked_add(region.size) {
                    Some(end) => {
                        if addr < end {
                            assert(self.mmio_regions@[k as int].holds(addr as int));
                            return true;
                        }
                    },
                    None => {
                        assert(self.mmio_regions@[k as int].addr <= addr);
                        return false;
                    },
                }
            }
            k = k + 1;
        }
        true
    }

    /// The first memory region that holds `addr`.
    pub fn find_region(&self, addr: u64) -> (region: Option<PciBarConfiguration>)
        requires
            ends_fit(self.mmio_regions@, addr as int),
        ensures
            region == region_at(self@.mmio_regions, addr as int),
    {
        let mut k: usize = 0;
        assert(self.mmio_regions@.skip(0) =~= self.mmio_regions@);
        while k < self.mmio_regions.len()
            invariant
                0 <= k <= self.mmio_regions@.len(),
                ends_fit(self.mmio_regions@, addr as int),
                forall|j: int| 0 <= j < k ==> !(#[trigger] self.mmio_regions@[j]).holds(addr as int),
                region_at(self.mmio_regions@, addr as int) == region_at(
                    self.mmio_regions@.skip(k as int),
                    addr as int,
                ),
            decreases self.mmio_regions@.len() - k,
        {
            let region: PciBarConfiguration = self.mmio_regions[k];
            if addr >= region.addr && addr < region.addr + region.size {
                return Some(region);
            }
            assert(self.mmio_regions@.skip(k as int).drop_first() =~= self.mmio_regions@.skip(k + 1));
            k = k + 1;
        }
        None
    }

    /// What a guest read at `addr` is directed to.
    pub fn read_bar(&self, addr: u64) -> (target: BarTarget)
        requires
            self@.wf(),
            ends_fit(self.mmio_regions@, addr as int),
        ensures
            target == self@.read_target(addr as int),
    {
        match self.find_region(addr) {
            Some(region) => {
                proof {
                    lemma_region_at_holds(self.mmio_regions@, addr as int);
                }
                let offset: u64 = addr - region.addr;
                let index: u32 = region.bar_idx as u32;
                if let Some(cap) = self.msix_cap {
                    if cap.is_msix_table(index, offset) {
                        return BarTarget::MsixTable { offset: offset - cap.table_offset };
                    } else if cap.is_msix_pba(index, offset) {
                        return BarTarget::MsixPba { offset: offset - cap.pba_offset };
                    }
                }
                BarTarget::Region { index, offset }
            },
            None => BarTarget::Nothing,
        }
    }

    /// What a guest write at `addr` is directed to.
    pub fn write_bar(&self, addr: u64) -> (target: BarTarget)
        requires
            self@.wf(),
            ends_fit(self.mmio_regions@, addr as int),
        ensures
            target == self@.write_target(addr as int),
    {
        if let Some(region) = self.find_region(addr) {
            if let Some(DeviceData::IntelGfxData { opregion_index }) = self.device_data {
                if opregion_index == region.bar_idx as u32 {
                    return BarTarget::Nothing;
                }
            }
        }
        self.read_bar(addr)
    }

    /// A label for log messages.
    pub fn debug_label(&self) -> (label: String)
        ensures
            label@ == "vfio "@ + self@.device_name + " device"@,
    {
        let mut label = "vfio ".to_owned();
        label.push_str(self.device_name.as_str());
        label.push_str(" device");
        label
    }

    /// Decides how the device gets its address; `parsed` is the address in its name.
    ///
    /// A hot-plugged device goes to the bus that was specified, as its first device and function:
    /// otherwise the root port could not detect it.
    pub fn allocate_address(&self, parsed: PciAddress) -> (next: AddressAllocation)
        ensures
            next == (match (self@.pci_address, self@.hotplug_bus_number) {
                (Some(address), _) => AddressAllocation::Allocated(address),
                (None, Some(bus)) => AddressAllocation::Reserve(
                    PciAddress { bus, dev: 0, func: 0 },
                ),
                (None, None) => AddressAllocation::Reserve(parsed),
            }),
    {
        match self.pci_address {
            Some(address) => AddressAllocation::Allocated(address),
            None => {
                let mut address = parsed;
                if let Some(bus_num) = self.hotplug_bus_number {
                    address.bus = bus_num;
                    address.dev = 0;
                    address.func = 0;
                }
                AddressAllocation::Reserve(address)
            },
        }
    }

    /// Takes whether `address` could be reserved for the device, which has no address yet.
    pub fn address_reserved(&mut self, address: PciAddress, reserved: bool) -> (result: Result<
        PciAddress,
        PciDeviceError,
    >)
        requires
            old(self)@.pci_address is None,
        ensures
            final(self)@ == (DeviceView {
                pci_address: if reserved {
                    Some(address)
                } else {
                    None
                },
                ..old(self)@
            }),
            result == (if reserved {
                Ok::<PciAddress, PciDeviceError>(address)
            } else {
                Err(PciDeviceError::PciAllocationFailed)
            }),
    {
        if reserved {
            self.pci_address = Some(address);
        }
        self.pci_address.ok_or(PciDeviceError::PciAllocationFailed)
    }

    /// The descriptors that the device needs, of which the host device needs `device_rds`.
    pub fn keep_rds(&self, device_rds: Vec<RawDescriptor>) -> (rds: Vec<RawDescriptor>)
        ensures
            rds@ =~= device_rds@ + option_seq(self@.interrupt_evt) + option_seq(
                self@.interrupt_resample_evt,
            ) + seq![self@.vm_socket_mem] + (match self@.msi_cap {
                Some(cap) => seq![cap.vm_socket_irq],
                None => seq![],
            }) + (match self@.msix_cap {
                Some(cap) => seq![cap.config],
                None => seq![],
            }),
    {
        let mut rds = device_rds;
        if let Some(interrupt_evt) = self.interrupt_evt {
            rds.push(interrupt_evt);
        }
        if let Some(interrupt_resample_evt) = self.interrupt_resample_evt {
            rds.push(interrupt_resample_evt);
        }
        rds.push(self.vm_socket_mem);
        if let Some(msi_cap) = self.msi_cap {
            rds.push(msi_cap.vm_socket_irq);
        }
        if let Some(msix_cap) = self.msix_cap {
            rds.push(msix_cap.config);
        }
        rds
    }

    /// The region that BAR `bar_num` describes, whether or not the guest can see it.
    ///
    /// Only if there is one does the command register have to be read to tell whether the guest
    /// can see it.
    pub fn find_bar(&self, bar_num: usize) -> (region: Option<PciBarConfiguration>)
        ensures
            region == self@.bar_region(bar_num),
    {
        let mut k: usize = 0;
        let ghost all = self.mmio_regions@ + self.io_regions@;
        assert(all.skip(0) =~= all);
        while k < self.mmio_regions.len()
            invariant
                0 <= k <= self.mmio_regions@.len(),
                all == self.mmio_regions@ + self.io_regions@,
                region_of_bar(all, bar_num) == region_of_bar(all.skip(k as int), bar_num),
            decreases self.mmio_regions@.len() - k,
        {
            if self.mmio_regions[k].bar_idx == bar_num {
                return Some(self.mmio_regions[k]);
            }
            assert(all.skip(k as int).drop_first() =~= all.skip(k + 1));
            k = k + 1;
        }
        assert(all.skip(k as int) =~= self.io_regions@);
        let mut n: usize = 0;
        assert(self.io_regions@.skip(0) =~= self.io_regions@);
        while n < self.io_regions.len()
            invariant
                0 <= n <= self.io_regions@.len(),
                region_of_bar(self.mmio_regions@ + self.io_regions@, bar_num) == region_of_bar(
                    self.io_regions@.skip(n as int),
                    bar_num,
                ),
            decreases self.io_regions@.len() - n,
        {
            if self.io_regions[n].bar_idx == bar_num {
                return Some(self.io_regions[n]);
            }
            assert(self.io_regions@.skip(n as int).drop_first() =~= self.io_regions@.skip(n + 1));
            n = n + 1;
        }
        None
    }

    /// The region of BAR `bar_num` as the guest sees it when the command register reads `command`:
    /// a memory region while memory space accesses are enabled.
    pub fn get_bar_configuration(&self, bar_num: usize, command: u8) -> (region: Option<
        PciBarConfiguration,
    >)
        ensures
            region == (match self@.bar_region(bar_num) {
                Some(bar) if bar.memory() && command / 2 % 2 == 1 => Some(bar),
                _ => None,
            }),
    {
        match self.find_bar(bar_num) {
            Some(bar) => {
                assert((command & 2 == 0) == (command / 2 % 2 == 0)) by (bit_vector);
                if (bar.is_memory() && (command & PCI_COMMAND_MEMORY == 0)) || bar.is_io() {
                    None
                } else {
                    Some(bar)
                }
            },
            None => None,
        }
    }

    /// The device has no capabilities of its own to add.
    pub fn register_device_capabilities(&mut self) -> (result: Result<(), PciDeviceError>)
        ensures
            result is Ok,
            *final(self) == *old(self),
    {
        Ok(())
    }

    /// The device has no doorbells: pairs of an event and the address that triggers it.
    pub fn ioevents(&self) -> (events: Vec<(RawDescriptor, u64)>)
        ensures
            events@.len() == 0,
    {
        Vec::new()
    }

    /// Forgets the mappings of the device, and returns them so that they are unregistered.
    pub fn disable_bars_mmap(&mut self) -> (slots: Vec<MemSlot>)
        ensures
            slots@ == old(self)@.mmap_slots,
            final(self)@ == (DeviceView { mmap_slots: seq![], ..old(self)@ }),
    {
        let mut slots: Vec<MemSlot> = Vec::new();
        slots.append(&mut self.mmap_slots);
        slots
    }

    /// Closes the device: what it holds of the VM is given back.
    pub fn close(&mut self) -> (actions: Vec<CloseAction>)
        ensures
            actions@ == old(self)@.close_actions(),
            final(self)@ == old(self)@.closed(),
    {
        let mut actions: Vec<CloseAction> = Vec::new();
        if let Some(mut msi) = self.msi_cap {
            if let Some(request) = msi.destroy() {
                actions.push(CloseAction::VmIrq(request));
            }
            self.msi_cap = Some(msi);
        }
        if self.msix_cap.is_some() {
            actions.push(CloseAction::DestroyMsix);
        }
        let slots: Vec<MemSlot> = self.disable_bars_mmap();
        let ghost head = actions@;
        let mut k: usize = 0;
        while k < slots.len()
            invariant
                0 <= k <= slots@.len(),
                actions@ =~= head + slots@.take(k as int).map_values(
                    |slot: MemSlot| CloseAction::UnregisterMemory(slot),
                ),
            decreases slots@.len() - k,
        {
            actions.push(CloseAction::UnregisterMemory(slots[k]));
            k = k + 1;
        }
        assert(slots@.take(k as int) =~= slots@);
        actions.push(CloseAction::CloseDevice);
        actions
    }

    /// Closes the device for good.
    pub fn destroy_device(&mut self) -> (actions: Vec<CloseAction>)
        ensures
            actions@ == old(self)@.close_actions(),
            final(self)@ == old(self)@.closed(),
    {
        self.close()
    }

    /// Gives up the worker: the event that ends it, if there is one, is to be signalled, and then
    /// its thread, if it was started, is to be joined.
    pub fn release_worker(&mut self) -> (r: (Option<RawDescriptor>, bool))
        ensures
            r == (old(self)@.kill_evt, old(self)@.worker_thread),
            final(self)@ == (DeviceView { kill_evt: None, worker_thread: false, ..old(self)@ }),
    {
        let kill_evt = self.kill_evt.take();
        let started = self.worker_thread;
        self.worker_thread = false;
        (kill_evt, started)
    }
}

/// The value in `o`, if any, as a sequence.
pub open spec fn option_seq<T>(o: Option<T>) -> Seq<T> {
    match o {
        Some(v) => seq![v],
        None => seq![],
    }
}

impl DeviceView {
    /// What closing the device asks for, in order.
    pub open spec fn close_actions(&self) -> Seq<CloseAction> {
        (match self.msi_cap {
            Some(VfioMsiCap { gsi: Some(gsi), irqfd: Some(irqfd), .. }) => seq![
                CloseAction::VmIrq(VmIrqRequest::ReleaseOneIrq { gsi, irqfd }),
            ],
            _ => seq![],
        }) + (match self.msix_cap {
            Some(_) => seq![CloseAction::DestroyMsix],
            None => seq![],
        }) + self.mmap_slots.map_values(|slot: MemSlot| CloseAction::UnregisterMemory(slot)) + seq![
            CloseAction::CloseDevice,
        ]
    }

    /// The device once it is closed.
    pub open spec fn closed(&self) -> DeviceView {
        DeviceView {
            msi_cap: match self.msi_cap {
                Some(cap) if cap.gsi is Some => Some(VfioMsiCap { irqfd: None, ..cap }),
                other => other,
            },
            mmap_slots: seq![],
            ..*self
        }
    }
}

/// If one of `regions` is that of BAR `bar_num`, the first such one is found.
pub proof fn lemma_region_of_bar(regions: Seq<PciBarConfiguration>, bar_num: usize, i: int)
    requires
        0 <= i < regions.len(),
        regions[i].bar_idx == bar_num,
    ensures
        region_of_bar(regions, bar_num) matches Some(region) && region.bar_idx == bar_num
            && regions.contains(region),
    decreases regions.len(),
{
    if regions[0].bar_idx != bar_num {
        let rest = regions.drop_first();
        assert(rest[i - 1] == regions[i]);
        lemma_region_of_bar(rest, bar_num, i - 1);
        let region = region_of_bar(rest, bar_num)->0;
        let k = choose|k: int| 0 <= k < rest.len() && rest[k] == region;
        assert(regions[k + 1] == region);
    }
}

proof fn lemma_region_at_holds(regions: Seq<PciBarConfiguration>, addr: int)
    ensures
        region_at(regions, addr) matches Some(region) ==> region.holds(addr) && regions.contains(
            region,
        ),
    decreases regions.len(),
{
    if regions.len() > 0 && !regions[0].holds(addr) {
        lemma_region_at_holds(regions.drop_first(), addr);
        if let Some(region) = region_at(regions.drop_first(), addr) {
            let k = choose|k: int|
                0 <= k < regions.drop_first().len() && regions.drop_first()[k] == region;
            assert(regions[k + 1] == region);
        }
    }
}

/// A guest access that is passed on to the host device stays within a memory region, never reaches
/// the MSI-X table or the pending bit array of that region, and an access to one of these stays
/// within it.
pub proof fn law_bar_accesses_stay_in_bounds(d: DeviceView, addr: int)
    requires
        0 <= addr <= u64::MAX,
        d.wf(),
    ensures
        match d.read_target(addr) {
            BarTarget::Nothing => forall|i: int|
                0 <= i < d.mmio_regions.len() ==> !(#[trigger] d.mmio_regions[i]).holds(addr),
            BarTarget::MsixTable { offset } => d.msix_cap is Some && offset
                < d.msix_cap->0.table_size_bytes,
            BarTarget::MsixPba { offset } => d.msix_cap is Some && offset
                < d.msix_cap->0.pba_size_bytes,
            BarTarget::Region { index, offset } => {
                &&& exists|i: int|
                    0 <= i < d.mmio_regions.len() && (#[trigger] d.mmio_regions[i]).bar_idx as u32
                        == index && d.mmio_regions[i].addr + offset == addr && offset
                        < d.mmio_regions[i].size
                &&& d.msix_cap matches Some(cap) ==> !cap.in_table(index, offset as int)
                    && !cap.in_pba(index, offset as int)
            },
        },
{
    lemma_region_at_holds(d.mmio_regions, addr);
    match region_at(d.mmio_regions, addr) {
        Some(region) => {
            let i = choose|i: int| 0 <= i < d.mmio_regions.len() && d.mmio_regions[i] == region;
            assert(d.mmio_regions[i].holds(addr));
        },
        None => {
            lemma_region_at_none(d.mmio_regions, addr);
        },
    }
}

proof fn lemma_region_at_none(regions: Seq<PciBarConfiguration>, addr: int)
    requires
        region_at(regions, addr) is None,
    ensures
        forall|i: int| 0 <= i < regions.len() ==> !(#[trigger] regions[i]).holds(addr),
    decreases regions.len(),
{
    if regions.len() > 0 {
        lemma_region_at_none(regions.drop_first(), addr);
        assert forall|i: int| 0 <= i < regions.len() implies !(#[trigger] regions[i]).holds(
            addr,
        ) by {
            if i > 0 {
                assert(regions.drop_first()[i - 1] == regions[i]);
            }
        }
    }
}

/// A write goes where a read at the same address goes, or nowhere.
pub proof fn law_writes_follow_reads(d: DeviceView, addr: int)
    ensures
        d.write_target(addr) == d.read_target(addr) || d.write_target(addr) == BarTarget::Nothing,
        !d.intel_gfx() ==> d.write_target(addr) == d.read_target(addr),
{
}

/// A closed device has nothing left to give back: closing it again only closes the host device
/// again, and its emulated MSI-X table.
pub proof fn law_closing_twice_gives_nothing_back_twice(d: DeviceView)
    ensures
        d.closed().closed() == d.closed(),
        d.closed().close_actions() =~= (match d.msix_cap {
            Some(_) => seq![CloseAction::DestroyMsix],
            None => seq![],
        }) + seq![CloseAction::CloseDevice],
{
}

/// Closing a device gives back its interrupt, if one was allocated, and every mapping.
pub proof fn law_closing_gives_everything_back(d: DeviceView, i: int)
    ensures
        d.msi_cap matches Some(cap) ==> cap.gsi is Some && cap.irqfd is Some
            ==> d.close_actions().contains(
            CloseAction::VmIrq(
                VmIrqRequest::ReleaseOneIrq { gsi: cap.gsi->0, irqfd: cap.irqfd->0 },
            ),
        ),
        0 <= i < d.mmap_slots.len() ==> d.close_actions().contains(
            CloseAction::UnregisterMemory(d.mmap_slots[i]),
        ),
        d.close_actions().last() == CloseAction::CloseDevice,
        d.closed().mmap_slots.len() == 0,
{
    let actions = d.close_actions();
    let slots = d.mmap_slots.map_values(|slot: MemSlot| CloseAction::UnregisterMemory(slot));
    if let Some(cap) = d.msi_cap {
        if cap.gsi is Some && cap.irqfd is Some {
            assert(actions[0] == CloseAction::VmIrq(
                VmIrqRequest::ReleaseOneIrq { gsi: cap.gsi->0, irqfd: cap.irqfd->0 },
            ));
        }
    }
    if 0 <= i < d.mmap_slots.len() {
        let before = actions.len() - 1 - slots.len();
        assert(actions[before + i] == slots[i]);
    }
}

proof fn lemma_region_at_first(regions: Seq<PciBarConfiguration>, addr: int, k: int)
    requires
        0 <= k < regions.len(),
        regions[k].holds(addr),
        forall|j: int| 0 <= j < k ==> !(#[trigger] regions[j]).holds(addr),
    ensures
        region_at(regions, addr) == Some(regions[k]),
    decreases regions.len(),
{
    if k > 0 {
        let rest = regions.drop_first();
        assert(!regions[0].holds(addr));
        assert forall|j: int| 0 <= j < k - 1 implies !(#[trigger] rest[j]).holds(addr) by {
            assert(rest[j] == regions[j + 1]);
        }
        lemma_region_at_first(rest, addr, k - 1);
    }
}

/// A guest access goes to the first memory region that the address lies in, at its distance from the
/// start of that region. Where that is in the MSI-X table or in the pending bit array, it goes there,
/// at the distance from the start of those; elsewhere it goes to the host device. A write goes where a
/// read goes, unless the region is the opregion of an Intel graphics device.
pub proof fn law_bar_access_goes_to_the_first_region(d: DeviceView, addr: int, k: int)
    requires
        d.wf(),
        0 <= addr <= u64::MAX,
        0 <= k < d.mmio_regions.len(),
        d.mmio_regions[k].addr <= addr < d.mmio_regions[k].addr + d.mmio_regions[k].size,
        forall|j: int|
            0 <= j < k ==> !((#[trigger] d.mmio_regions[j]).addr <= addr < d.mmio_regions[j].addr
                + d.mmio_regions[j].size),
    ensures
        ({
            let offset = addr - d.mmio_regions[k].addr;
            let index = d.mmio_regions[k].bar_idx as u32;
            let in_table = d.msix_cap is Some && index == d.msix_cap->0.table_pci_bar
                && d.msix_cap->0.table_offset <= offset < d.msix_cap->0.table_offset + 16
                * d.msix_cap->0.table_size;
            let in_pba = d.msix_cap is Some && index == d.msix_cap->0.pba_pci_bar
                && d.msix_cap->0.pba_offset <= offset < d.msix_cap->0.pba_offset + 8 * ((
            d.msix_cap->0.table_size + 63) / 64);
            let opregion = d.device_data == Some(
                DeviceData::IntelGfxData { opregion_index: index },
            );
            &&& match d.read_target(addr) {
                BarTarget::Nothing => false,
                BarTarget::MsixTable { offset: o } => in_table && o == offset
                    - d.msix_cap->0.table_offset,
                BarTarget::MsixPba { offset: o } => !in_table && in_pba && o == offset
                    - d.msix_cap->0.pba_offset,
                BarTarget::Region { index: n, offset: o } => !in_table && !in_pba && n == index && o
                    == offset,
            }
            &&& d.write_target(addr) == (if opregion {
                BarTarget::Nothing
            } else {
                d.read_target(addr)
            })
        }),
{
    assert forall|j: int| 0 <= j < k implies !(#[trigger] d.mmio_regions[j]).holds(addr) by {}
    assert(d.mmio_regions[k].holds(addr));
    lemma_region_at_first(d.mmio_regions, addr, k);
}

/// A guest access outside of all memory regions has no effect.
pub proof fn law_access_outside_of_regions_has_no_effect(d: DeviceView, addr: int)
    requires
        forall|j: int|
            0 <= j < d.mmio_regions.len() ==> !((#[trigger] d.mmio_regions[j]).addr <= addr
                < d.mmio_regions[j].addr + d.mmio_regions[j].size),
    ensures
        d.read_target(addr) == BarTarget::Nothing,
        d.write_target(addr) == BarTarget::Nothing,
{
    lemma_region_at_holds(d.mmio_regions, addr);
    if let Some(region) = region_at(d.mmio_regions, addr) {
        let i = choose|i: int| 0 <= i < d.mmio_regions.len() && d.mmio_regions[i] == region;
        assert(d.mmio_regions[i].holds(addr));
    }
}

/// The region of a BAR is the first one with its number, memory regions before I/O regions, and there
/// is none exactly if no region has that number.
pub proof fn law_region_of_a_bar(d: DeviceView, bar_num: usize, k: int)
    ensures
        ({
            let all = d.mmio_regions + d.io_regions;
            &&& 0 <= k < all.len() && all[k].bar_idx == bar_num && (forall|j: int|
                0 <= j < k ==> (#[trigger] all[j]).bar_idx != bar_num) ==> d.bar_region(bar_num)
                == Some(all[k])
            &&& (forall|j: int| 0 <= j < all.len() ==> (#[trigger] all[j]).bar_idx != bar_num)
                ==> d.bar_region(bar_num) is None
        }),
{
    lemma_first_region_of_bar(d.mmio_regions + d.io_regions, bar_num, k);
}

proof fn lemma_first_region_of_bar(regions: Seq<PciBarConfiguration>, bar_num: usize, k: int)
    ensures
        0 <= k < regions.len() && regions[k].bar_idx == bar_num && (forall|j: int|
            0 <= j < k ==> (#[trigger] regions[j]).bar_idx != bar_num) ==> region_of_bar(
            regions,
            bar_num,
        ) == Some(regions[k]),
        (forall|j: int| 0 <= j < regions.len() ==> (#[trigger] regions[j]).bar_idx != bar_num)
            ==> region_of_bar(regions, bar_num) is None,
    decreases regions.len(),
{
    if regions.len() > 0 {
        let rest = regions.drop_first();
        lemma_first_region_of_bar(rest, bar_num, k - 1);
        assert(forall|j: int| 0 <= j < rest.len() ==> #[trigger] rest[j] == regions[j + 1]);
        if 0 < k < regions.len() && (forall|j: int|
            0 <= j < k ==> (#[trigger] regions[j]).bar_idx != bar_num) {
            assert(regions[0].bar_idx != bar_num);
            assert(forall|j: int| 0 <= j < k - 1 ==> (#[trigger] rest[j]).bar_idx != bar_num);
        }
        if forall|j: int| 0 <= j < regions.len() ==> (#[trigger] regions[j]).bar_idx != bar_num {
            assert(regions[0].bar_idx != bar_num);
            assert(forall|j: int| 0 <= j < rest.len() ==> (#[trigger] rest[j]).bar_idx != bar_num);
        }
    }
}

/// A device that was just scanned is an Intel graphics device exactly if its vendor is Intel and its
/// class that of display controllers. It has the capabilities that were found, no regions, no
/// interrupt in use, no worker and no mappings, and its BARs have yet to be mapped. Writes to its BARs
/// are all passed on: the opregion is not known yet.
pub proof fn law_scanned_device(
    device_name: Seq<char>,
    hotplug_bus_number: Option<u8>,
    scan: CapabilityScan,
    vm_socket_mem: RawDescriptor,
    vm_socket_vm: Option<RawDescriptor>,
    vendor_id: u16,
    class_code: u8,
)
    requires
        scan.state == (ScanState::Done { vendor_id, class_code }),
    ensures
        ({
            let d = DeviceView::scanned(
                device_name,
                hotplug_bus_number,
                scan,
                vm_socket_mem,
                vm_socket_vm,
            );
            &&& d.intel_gfx() <==> vendor_id == 0x8086 && class_code == 3
            &&& d.device_data matches Some(DeviceData::IntelGfxData { opregion_index })
                ==> opregion_index == 0xffff_ffff
            &&& d.device_name == device_name
            &&& d.hotplug_bus_number == hotplug_bus_number
            &&& d.msi_cap == scan.msi_cap && d.msix_cap == scan.msix_cap
            &&& d.vm_socket_mem == vm_socket_mem && d.vm_socket_vm == vm_socket_vm
            &&& d.mmio_regions.len() == 0 && d.io_regions.len() == 0 && d.mmap_slots.len() == 0
            &&& d.pci_address is None && d.irq_type is None && d.interrupt_evt is None
            &&& d.interrupt_resample_evt is None && d.kill_evt is None && !d.worker_thread
            &&& d.remap
        }),
{
}

/// What closing a device asks for, in order: its MSI interrupt is given back if it has one with an
/// event, then those of MSI-X, then each mapping, and at last the host device is closed. Nothing else
/// is asked for, and the device keeps everything but the event and the mappings.
pub proof fn law_close_asks_in_order(d: DeviceView, i: int)
    ensures
        ({
            let actions = d.close_actions();
            let msi = d.msi_cap is Some && d.msi_cap->0.gsi is Some && d.msi_cap->0.irqfd is Some;
            let a: int = if msi {
                1
            } else {
                0
            };
            let b: int = if d.msix_cap is Some {
                1
            } else {
                0
            };
            let closed = d.closed();
            &&& actions.len() == a + b + d.mmap_slots.len() + 1
            &&& msi ==> actions[0] == CloseAction::VmIrq(
                VmIrqRequest::ReleaseOneIrq {
                    gsi: d.msi_cap->0.gsi->0,
                    irqfd: d.msi_cap->0.irqfd->0,
                },
            )
            &&& d.msix_cap is Some ==> actions[a] == CloseAction::DestroyMsix
            &&& 0 <= i < d.mmap_slots.len() ==> actions[a + b + i] == CloseAction::UnregisterMemory(
                d.mmap_slots[i],
            )
            &&& actions[actions.len() - 1] == CloseAction::CloseDevice
            &&& closed == (DeviceView {
                msi_cap: closed.msi_cap,
                mmap_slots: closed.mmap_slots,
                ..d
            })
            &&& closed.mmap_slots.len() == 0
            &&& match (d.msi_cap, closed.msi_cap) {
                (Some(cap), Some(after)) => after == (VfioMsiCap {
                    irqfd: if cap.gsi is Some {
                        None
                    } else {
                        cap.irqfd
                    },
                    ..cap
                }),
                (None, None) => true,
                _ => false,
            }
        }),
{
}

/// An access can be directed if all memory regions end within the 64-bit address space.
pub proof fn law_accesses_to_regions_within_the_address_space_fit(
    regions: Seq<PciBarConfiguration>,
    addr: int,
)
    requires
        forall|i: int|
            0 <= i < regions.len() ==> (#[trigger] regions[i]).addr + regions[i].size <= u64::MAX,
    ensures
        ends_fit(regions, addr),
{
}

} // verus!
