//! Guest accesses to the config space of a device.
//!
//! Most of config space is that of the host device. The MSI and MSI-X capabilities are emulated, and
//! writes to the command register and to the BARs change what is mapped into the guest.
//!
//! An access takes several calls to the host. A [`ConfigRead`] or [`ConfigWrite`] names the next
//! one, and the reply is handed back.
use vstd::prelude::*;

use crate::bar::{
    law_bar_write_moves_the_first_owner, law_unowned_bar_write_moves_nothing, owns_register,
    regions_rewritten, write_bar_register, PciBarConfiguration, PciBarRegionType,
};
use crate::bytes::u32_from_le;
use crate::device::{
    lemma_region_of_bar, DeviceView, MemSlot, VfioPciDevice, PCI_COMMAND, PCI_COMMAND_MEMORY,
};
use crate::irq::{irq_rank, law_irq_switch_ends, AfterIrqs, IrqStep};
use crate::msi::{MsiWrite, RawDescriptor, VfioMsiCap, VfioMsiChange, VmIrqRequest};
use crate::msix::{msix_change, MsixStatus, VfioMsixCap};
use crate::worker::WorkerStart;

verus! {

/// The number of the config space register with index `reg_idx`.
pub open spec fn register_number(reg_idx: usize) -> u32 {
    (reg_idx * 4) as u32
}

/// What to do next to read a register of config space.
#[derive(Clone, Copy, PartialEq, Eq, Structural, Debug)]
pub enum ConfigRead {
    /// Read these four bytes of the host device's config space.
    Register { reg: u32 },
    /// Read the command register; the BAR was read as `config`.
    Command { reg: u32, config: u32 },
    /// Put the emulated MSI-X message control into `config`.
    MsixControl { reg: u32, config: u32 },
    /// This is what the guest reads.
    Done { config: u32 },
}

impl DeviceView {
    /// What the guest reads where the host device, or the emulation, has `config`: of an Intel
    /// graphics device, the size of the stolen memory reads as zero.
    pub open spec fn quirked(self, reg: u32, config: u32) -> u32 {
        if self.intel_gfx() && reg == 0x50 {
            (config - config % 0x1_0000 + config % 0x100) as u32
        } else {
            config
        }
    }

    /// Where a read of the register `reg` goes on after the host device had `config`.
    pub open spec fn read_after_register(self, reg: u32, config: u32) -> ConfigRead {
        if 0x10 <= reg <= 0x24 {
            if self.bar_region(((reg - 0x10) / 4) as usize) is Some {
                ConfigRead::Command { reg, config }
            } else {
                ConfigRead::Done { config }
            }
        } else if self.msix_cap is Some && self.msix_cap->0.control_touched(reg, 4) {
            ConfigRead::MsixControl { reg, config }
        } else {
            ConfigRead::Done { config: self.quirked(reg, config) }
        }
    }

    /// What the guest reads from the BAR register `reg`, in which the host device has `config`:
    /// the registers of I/O regions read as zero.
    pub open spec fn bar_register_read(self, reg: u32, config: u32) -> u32 {
        match self.bar_region(((reg - 0x10) / 4) as usize) {
            Some(bar) if !bar.memory() => 0,
            _ => config,
        }
    }
}

impl VfioPciDevice {
    fn quirk(&self, reg: u32, config: u32) -> (r: u32)
        ensures
            r == self@.quirked(reg, config),
    {
        assert(config & 0xffff00ff == config - config % 0x1_0000 + config % 0x100) by (bit_vector);
        if self.is_intel_gfx() && reg == 0x50 {
            config & 0xffff00ff
        } else {
            config
        }
    }

    /// Starts to read the register with index `reg_idx`.
    pub fn read_config_register(&self, reg_idx: usize) -> (next: ConfigRead)
        requires
            reg_idx * 4 <= usize::MAX,
        ensures
            next == (ConfigRead::Register { reg: register_number(reg_idx) }),
    {
        ConfigRead::Register { reg: (reg_idx * 4) as u32 }
    }

    /// Takes what the host device has in the register `reg`.
    pub fn config_register_read(&self, reg: u32, config: u32) -> (next: ConfigRead)
        requires
            self@.wf(),
        ensures
            next == self@.read_after_register(reg, config),
    {
        if 0x10 <= reg && reg <= 0x24 {
            let bar_idx: usize = (reg as usize - 0x10) / 4;
            if self.find_bar(bar_idx).is_some() {
                return ConfigRead::Command { reg, config };
            }
        } else if let Some(cap) = self.msix_cap {
            if cap.is_msix_control_reg(reg, 4) {
                return ConfigRead::MsixControl { reg, config };
            }
        }
        ConfigRead::Done { config: self.quirk(reg, config) }
    }

    /// Takes the command register, where `config` was read from the BAR register `reg`.
    ///
    /// I/O regions are hidden from the guest, whatever the command register says: their registers
    /// read as zero.
    pub fn config_command_read(&self, reg: u32, config: u32, _command: u8) -> (next: ConfigRead)
        requires
            0x10 <= reg <= 0x24,
        ensures
            next == (ConfigRead::Done { config: self@.bar_register_read(reg, config) }),
    {
        let bar_idx: usize = (reg as usize - 0x10) / 4;
        match self.find_bar(bar_idx) {
            Some(bar) if bar.is_io() => ConfigRead::Done { config: 0 },
            _ => ConfigRead::Done { config: self.quirk(reg, config) },
        }
    }

    /// Takes the register `reg` with the emulated MSI-X message control in it.
    pub fn config_msix_control_read(&self, reg: u32, config: u32) -> (next: ConfigRead)
        ensures
            next == (ConfigRead::Done { config: self@.quirked(reg, config) }),
    {
        ConfigRead::Done { config: self.quirk(reg, config) }
    }
}

/// What to do next for a write to config space.
#[derive(Clone, Copy, PartialEq, Eq, Structural, Debug)]
pub enum ConfigWrite {
    /// Go on starting the worker.
    Worker(WorkerStart),
    /// Go on with the emulation of MSI.
    Msi(MsiWrite),
    /// Go on switching the interrupt because of MSI.
    MsiSwitch(IrqStep),
    /// Let the emulated MSI-X message control take the data.
    MsixControl,
    /// Go on switching the interrupt because of MSI-X.
    MsixSwitch(IrqStep),
    /// Write the data to the host device's config space.
    WriteThrough,
    /// Read the command register.
    ReadCommand,
    /// Map all BARs anew: see [`VfioPciDevice::enable_bars_mmap`].
    MapBars,
    /// Nothing is left to be done.
    Done,
}

/// The reply to a step of a write to config space.
#[derive(Clone, Copy, PartialEq, Eq, Debug)]
pub enum ConfigReply {
    /// It was done, with nothing to report.
    Finished,
    /// It was done, or failed.
    Success(bool),
    /// The event that was created, if one was.
    Event(Option<RawDescriptor>),
    /// The two descriptors of the event that was created, if one was.
    EventPair(Option<(RawDescriptor, RawDescriptor)>),
    /// The interrupt that was allocated, if one was.
    Gsi(Option<u32>),
    /// The state of the emulated MSI-X message control before and after it took the data.
    Msix(MsixStatus, MsixStatus),
    /// The command register.
    Command(u8),
}

impl ConfigWrite {
    /// Whether `reply` is of the kind that the step asks for.
    pub open spec fn takes(self, reply: ConfigReply) -> bool {
        match self {
            ConfigWrite::Worker(WorkerStart::CreateRequestEvent { .. }) => reply is Event,
            ConfigWrite::Worker(WorkerStart::EnableRequestIrq { .. }) => reply is Success,
            ConfigWrite::Worker(WorkerStart::CreateKillEvent { .. }) => reply is EventPair,
            ConfigWrite::Worker(WorkerStart::Spawn { .. }) => reply is Success,
            ConfigWrite::Worker(WorkerStart::Done) => reply is Finished,
            ConfigWrite::Msi(MsiWrite::CreateEvent) => reply is Event,
            ConfigWrite::Msi(MsiWrite::Allocate(_)) => reply is Gsi,
            ConfigWrite::Msi(_) => reply is Finished,
            ConfigWrite::MsiSwitch(_) => reply is Success,
            ConfigWrite::MsixControl => reply is Msix,
            ConfigWrite::MsixSwitch(_) => reply is Success,
            ConfigWrite::WriteThrough => reply is Finished,
            ConfigWrite::ReadCommand => reply is Command,
            ConfigWrite::MapBars => reply is Finished,
            ConfigWrite::Done => reply is Finished,
        }
    }
}

impl DeviceView {
    /// Whether the ends of an access of `len` bytes at `start` can be computed where the
    /// capabilities make that necessary.
    pub open spec fn access_fits(self, start: u64, len: nat) -> bool {
        &&& self.msi_cap matches Some(cap) ==> cap.offset <= start ==> start + len <= u64::MAX
        &&& self.msix_cap matches Some(cap) ==> start % 0x1_0000_0000 < cap.offset + 4 ==> start
            % 0x1_0000_0000 + (len % 0x1_0000_0000) <= u32::MAX
    }

    /// Whether a write of `len` bytes at `start` holds part of the MSI-X message control register.
    pub open spec fn msix_control_written(self, start: u64, len: nat) -> bool {
        self.msix_cap is Some && self.msix_cap->0.control_touched(
            (start % 0x1_0000_0000) as u32,
            (len % 0x1_0000_0000) as u32,
        )
    }

    /// Goes on once MSI is dealt with.
    pub open spec fn msix_phase(self, start: u64, len: nat) -> ConfigWrite {
        if self.msix_control_written(start, len) {
            ConfigWrite::MsixControl
        } else {
            ConfigWrite::WriteThrough
        }
    }

    /// Goes on at `step` with switching the interrupt because of MSI.
    pub open spec fn msi_switch_phase(self, step: IrqStep, start: u64, len: nat) -> ConfigWrite {
        if step == IrqStep::Done {
            self.msix_phase(start, len)
        } else {
            ConfigWrite::MsiSwitch(step)
        }
    }

    /// Goes on at `next` with the emulation of MSI.
    pub open spec fn msi_going_on(self, next: MsiWrite, start: u64, len: nat) -> ConfigWrite {
        match next {
            MsiWrite::Done(change) => self.msi_switch_phase(self.msi_switch(change), start, len),
            _ => ConfigWrite::Msi(next),
        }
    }

    /// Starts the emulation of MSI, if the data lies in that capability.
    pub open spec fn msi_phase(self, start: u64, data: Seq<u8>) -> (DeviceView, ConfigWrite) {
        match self.msi_cap {
            Some(cap) if cap.holds(start as int, data.len() as int) => {
                let written = cap.written(start - cap.offset, data);
                let d = DeviceView { msi_cap: Some(written), ..self };
                (d, d.msi_going_on(cap.follow_up(written), start, data.len()))
            },
            _ => (self, self.msi_switch_phase(IrqStep::Done, start, data.len())),
        }
    }

    /// Goes on at `next` with starting the worker.
    pub open spec fn worker_phase(self, next: WorkerStart, start: u64, data: Seq<u8>) -> (
        DeviceView,
        ConfigWrite,
    ) {
        if next == WorkerStart::Done {
            self.msi_phase(start, data)
        } else {
            (self, ConfigWrite::Worker(next))
        }
    }

    /// How a write of `data` at `start` begins: with the worker, the first time.
    pub open spec fn write_begun(self, start: u64, data: Seq<u8>) -> (DeviceView, ConfigWrite) {
        if self.worker_wanted() {
            let (d, next) = self.worker_begun();
            d.worker_phase(next, start, data)
        } else {
            self.msi_phase(start, data)
        }
    }

    /// Goes on at `step` with switching the interrupt because of MSI-X.
    pub open spec fn msix_switch_phase(self, step: IrqStep) -> ConfigWrite {
        if step == IrqStep::Done {
            ConfigWrite::WriteThrough
        } else {
            ConfigWrite::MsixSwitch(step)
        }
    }

    /// The guest switches memory space accesses on, and BARs have to be mapped anew.
    pub open spec fn enables_memory(self, start: u64, data: Seq<u8>) -> bool {
        start == 4 && data.len() == 2 && data[0] / 2 % 2 == 1 && self.remap
    }

    /// The device after `data` was written through at `start`: where a BAR register was written,
    /// its region has moved.
    pub open spec fn written_through(self, start: u64, data: Seq<u8>) -> (DeviceView, ConfigWrite) {
        if self.enables_memory(start, data) {
            (self, ConfigWrite::MapBars)
        } else if 0x10 <= start <= 0x24 && data.len() == 4 {
            let regions = regions_rewritten(
                self.mmio_regions,
                ((start - 0x10) / 4) as u32,
                crate::bytes::le32(data, 0) as u32,
            );
            if regions != self.mmio_regions {
                (
                    DeviceView { mmio_regions: regions, remap: true, ..self },
                    ConfigWrite::ReadCommand,
                )
            } else {
                (self, ConfigWrite::Done)
            }
        } else {
            (self, ConfigWrite::Done)
        }
    }

    /// Where `reply` to the step `at` of a write of `data` at `start` leads.
    pub open spec fn write_after(
        self,
        at: ConfigWrite,
        reply: ConfigReply,
        start: u64,
        data: Seq<u8>,
    ) -> (DeviceView, ConfigWrite) {
        let len = data.len();
        match (at, reply) {
            (
                ConfigWrite::Worker(WorkerStart::CreateRequestEvent { vm_socket }),
                ConfigReply::Event(Some(req_evt)),
            ) => (self, ConfigWrite::Worker(WorkerStart::EnableRequestIrq { vm_socket, req_evt })),
            (
                ConfigWrite::Worker(WorkerStart::EnableRequestIrq { vm_socket, req_evt }),
                ConfigReply::Success(true),
            ) => (self, ConfigWrite::Worker(WorkerStart::CreateKillEvent { vm_socket, req_evt })),
            (
                ConfigWrite::Worker(WorkerStart::CreateKillEvent { vm_socket, req_evt }),
                ConfigReply::EventPair(Some((kept, kill_evt))),
            ) => (
                DeviceView { kill_evt: Some(kept), ..self },
                ConfigWrite::Worker(WorkerStart::Spawn { vm_socket, req_evt, kill_evt }),
            ),
            (
                ConfigWrite::Worker(WorkerStart::Spawn { .. }),
                ConfigReply::Success(true),
            ) => DeviceView { worker_thread: true, ..self }.msi_phase(start, data),
            (ConfigWrite::Worker(_), _) => self.msi_phase(start, data),
            (ConfigWrite::Msi(MsiWrite::CreateEvent), ConfigReply::Event(event)) => match (
                self.msi_cap,
                event,
            ) {
                (Some(cap), Some(irqfd)) => {
                    let cap = VfioMsiCap { irqfd: Some(irqfd), ..cap };
                    let d = DeviceView { msi_cap: Some(cap), ..self };
                    (d, d.msi_going_on(cap.allocation(), start, len))
                },
                (Some(cap), None) => (
                    self,
                    self.msi_going_on(cap.routed(Some(VfioMsiChange::Enable)), start, len),
                ),
                (None, _) => (self, self.msix_phase(start, len)),
            },
            (ConfigWrite::Msi(MsiWrite::Allocate(_)), ConfigReply::Gsi(gsi)) => match self.msi_cap {
                Some(cap) => {
                    let cap = match gsi {
                        Some(g) => VfioMsiCap { gsi: Some(g), ..cap },
                        None => cap,
                    };
                    let d = DeviceView { msi_cap: Some(cap), ..self };
                    (d, d.msi_going_on(cap.routed(Some(VfioMsiChange::Enable)), start, len))
                },
                None => (self, self.msix_phase(start, len)),
            },
            (ConfigWrite::Msi(MsiWrite::Route(_, change)), _) => (
                self,
                self.msi_switch_phase(self.msi_switch(change), start, len),
            ),
            (ConfigWrite::Msi(next), _) => (self, self.msi_going_on(next, start, len)),
            (ConfigWrite::MsiSwitch(step), ConfigReply::Success(ok)) => {
                let (irq_type, next) = self.irq_after(step, ok);
                let d = self.with_irq(irq_type);
                (d, d.msi_switch_phase(next, start, len))
            },
            (ConfigWrite::MsixControl, ConfigReply::Msix(before, after)) => (
                self,
                self.msix_switch_phase(self.msix_switch(msix_change(before, after))),
            ),
            (ConfigWrite::MsixSwitch(step), ConfigReply::Success(ok)) => {
                let (irq_type, next) = self.irq_after(step, ok);
                let d = self.with_irq(irq_type);
                (d, d.msix_switch_phase(next))
            },
            (ConfigWrite::WriteThrough, _) => self.written_through(start, data),
            (ConfigWrite::ReadCommand, ConfigReply::Command(command)) => (
                self,
                if command / 2 % 2 == 1 {
                    ConfigWrite::MapBars
                } else {
                    ConfigWrite::Done
                },
            ),
            _ => (self, ConfigWrite::Done),
        }
    }
}

/// Where in config space a write to `offset` bytes into the register with index `reg_idx` starts.
pub fn config_start(reg_idx: usize, offset: u64) -> (start: u64)
    requires
        reg_idx * 4 <= usize::MAX,
        reg_idx * 4 + offset <= u64::MAX,
    ensures
        start == reg_idx * 4 + offset,
{
    (reg_idx * 4) as u64 + offset
}

impl VfioPciDevice {
    fn config_msix_phase(&self, start: u64, len: usize) -> (next: ConfigWrite)
        requires
            self@.wf(),
            self@.access_fits(start, len as nat),
        ensures
            next == self@.msix_phase(start, len as nat),
    {
        proof {
            crate::bytes::lemma_low_half(start);
        }
        let len64: u64 = len as u64;
        proof {
            crate::bytes::lemma_low_half(len64);
        }
        if let Some(cap) = self.msix_cap {
            if cap.is_msix_control_reg(start as u32, len64 as u32) {
                return ConfigWrite::MsixControl;
            }
        }
        ConfigWrite::WriteThrough
    }

    fn config_msi_switch(&self, step: IrqStep, start: u64, len: usize) -> (next: ConfigWrite)
        requires
            self@.wf(),
            self@.access_fits(start, len as nat),
        ensures
            next == self@.msi_switch_phase(step, start, len as nat),
    {
        if step == IrqStep::Done {
            self.config_msix_phase(start, len)
        } else {
            ConfigWrite::MsiSwitch(step)
        }
    }

    fn config_msi_goes_on(&self, msi: MsiWrite, start: u64, len: usize) -> (next: ConfigWrite)
        requires
            self@.wf(),
            self@.access_fits(start, len as nat),
        ensures
            next == self@.msi_going_on(msi, start, len as nat),
    {
        match msi {
            MsiWrite::Done(change) => self.config_msi_switch(self.msi_changed(change), start, len),
            _ => ConfigWrite::Msi(msi),
        }
    }

    fn config_msi_phase(&mut self, start: u64, data: &[u8]) -> (next: ConfigWrite)
        requires
            old(self)@.wf(),
            old(self)@.access_fits(start, data@.len()),
        ensures
            (final(self)@, next) == old(self)@.msi_phase(start, data@),
            final(self)@.wf(),
            final(self)@.access_fits(start, data@.len()),
    {
        if let Some(mut cap) = self.msi_cap {
            if cap.is_msi_reg(start, data.len()) {
                let msi = cap.write_msi_reg(start, data);
                self.msi_cap = Some(cap);
                return self.config_msi_goes_on(msi, start, data.len());
            }
        }
        self.config_msix_phase(start, data.len())
    }

    fn config_worker_phase(&mut self, worker: WorkerStart, start: u64, data: &[u8]) -> (next:
        ConfigWrite)
        requires
            old(self)@.wf(),
            old(self)@.access_fits(start, data@.len()),
        ensures
            (final(self)@, next) == old(self)@.worker_phase(worker, start, data@),
            final(self)@.wf(),
            final(self)@.access_fits(start, data@.len()),
    {
        if worker == WorkerStart::Done {
            self.config_msi_phase(start, data)
        } else {
            ConfigWrite::Worker(worker)
        }
    }

    /// Whether the ends of an access of `len` bytes at `start` can be computed where the
    /// capabilities make that necessary.
    pub fn access_end_fits(&self, start: u64, len: usize) -> (ok: bool)
        requires
            self@.wf(),
        ensures
            ok == self@.access_fits(start, len as nat),
    {
        let len64: u64 = len as u64;
        proof {
            crate::bytes::lemma_low_half(start);
            crate::bytes::lemma_low_half(len64);
        }
        if let Some(cap) = self.msi_cap {
            if start >= cap.offset as u64 && start.checked_add(len64).is_none() {
                return false;
            }
        }
        if let Some(cap) = self.msix_cap {
            if (start as u32) < cap.offset + 4 && (start as u32).checked_add(
                len64 as u32,
            ).is_none() {
                return false;
            }
        }
        true
    }

    /// Starts a guest write of `data`, `offset` bytes into the register with index `reg_idx`.
    pub fn write_config_register(&mut self, reg_idx: usize, offset: u64, data: &[u8]) -> (next:
        ConfigWrite)
        requires
            old(self)@.wf(),
            reg_idx * 4 <= usize::MAX,
            reg_idx * 4 + offset <= u64::MAX,
            old(self)@.access_fits((reg_idx * 4 + offset) as u64, data@.len()),
        ensures
            (final(self)@, next) == old(self)@.write_begun(
                (reg_idx * 4 + offset) as u64,
                data@,
            ),
            final(self)@.wf(),
            final(self)@.access_fits((reg_idx * 4 + offset) as u64, data@.len()),
    {
        let start: u64 = config_start(reg_idx, offset);
        if self.wants_worker() {
            let worker = self.start_work_thread();
            self.config_worker_phase(worker, start, data)
        } else {
            self.config_msi_phase(start, data)
        }
    }

    /// Takes the reply to the step `at` of a guest write of `data` at `start`.
    pub fn config_write_goes_on(
        &mut self,
        at: ConfigWrite,
        reply: ConfigReply,
        start: u64,
        data: &[u8],
    ) -> (next: ConfigWrite)
        requires
            old(self)@.wf(),
            old(self)@.access_fits(start, data@.len()),
            at.takes(reply),
        ensures
            (final(self)@, next) == old(self)@.write_after(at, reply, start, data@),
            final(self)@.wf(),
            final(self)@.access_fits(start, data@.len()),
    {
        let len: usize = data.len();
        match (at, reply) {
            (ConfigWrite::Worker(worker), _) => {
                let worker = match (worker, reply) {
                    (
                        WorkerStart::CreateRequestEvent { vm_socket },
                        ConfigReply::Event(event),
                    ) => Self::request_event_created(vm_socket, event),
                    (
                        WorkerStart::EnableRequestIrq { vm_socket, req_evt },
                        ConfigReply::Success(ok),
                    ) => Self::request_irq_enabled(vm_socket, req_evt, ok),
                    (
                        WorkerStart::CreateKillEvent { vm_socket, req_evt },
                        ConfigReply::EventPair(events),
                    ) => self.kill_event_created(vm_socket, req_evt, events),
                    (WorkerStart::Spawn { .. }, ConfigReply::Success(ok)) => self.worker_spawned(
                        ok,
                    ),
                    _ => WorkerStart::Done,
                };
                self.config_worker_phase(worker, start, data)
            },
            (ConfigWrite::Msi(MsiWrite::CreateEvent), ConfigReply::Event(event)) => {
                if let Some(mut cap) = self.msi_cap {
                    let msi = cap.event_created(event);
                    self.msi_cap = Some(cap);
                    self.config_msi_goes_on(msi, start, len)
                } else {
                    self.config_msix_phase(start, len)
                }
            },
            (ConfigWrite::Msi(MsiWrite::Allocate(_)), ConfigReply::Gsi(gsi)) => {
                if let Some(mut cap) = self.msi_cap {
                    let msi = cap.msi_allocated(gsi);
                    self.msi_cap = Some(cap);
                    self.config_msi_goes_on(msi, start, len)
                } else {
                    self.config_msix_phase(start, len)
                }
            },
            (ConfigWrite::Msi(MsiWrite::Route(_, change)), _) => {
                self.config_msi_switch(self.msi_changed(change), start, len)
            },
            (ConfigWrite::Msi(msi), _) => self.config_msi_goes_on(msi, start, len),
            (ConfigWrite::MsiSwitch(step), ConfigReply::Success(ok)) => {
                let step = self.irq_call_done(step, ok);
                self.config_msi_switch(step, start, len)
            },
            (ConfigWrite::MsixControl, ConfigReply::Msix(before, after)) => {
                let change = VfioMsixCap::write_msix_control(before, after);
                match self.msix_changed(change) {
                    IrqStep::Done => ConfigWrite::WriteThrough,
                    step => ConfigWrite::MsixSwitch(step),
                }
            },
            (ConfigWrite::MsixSwitch(step), ConfigReply::Success(ok)) => {
                match self.irq_call_done(step, ok) {
                    IrqStep::Done => ConfigWrite::WriteThrough,
                    step => ConfigWrite::MsixSwitch(step),
                }
            },
            (ConfigWrite::WriteThrough, _) => self.config_written_through(start, data),
            (ConfigWrite::ReadCommand, ConfigReply::Command(command)) => {
                assert((command & 2 == 2) == (command / 2 % 2 == 1)) by (bit_vector);
                if command & PCI_COMMAND_MEMORY == PCI_COMMAND_MEMORY {
                    ConfigWrite::MapBars
                } else {
                    ConfigWrite::Done
                }
            },
            _ => ConfigWrite::Done,
        }
    }

    fn config_written_through(&mut self, start: u64, data: &[u8]) -> (next: ConfigWrite)
        requires
            old(self)@.wf(),
        ensures
            (final(self)@, next) == old(self)@.written_through(start, data@),
            final(self)@.wf(),
    {
        if start == PCI_COMMAND as u64 && data.len() == 2 && self.remap {
            let low: u8 = data[0];
            assert((low & 2 == 2) == (low / 2 % 2 == 1)) by (bit_vector);
            if low & PCI_COMMAND_MEMORY == PCI_COMMAND_MEMORY {
                return ConfigWrite::MapBars;
            }
        }
        if 0x10 <= start && start <= 0x24 && data.len() == 4 {
            let bar_idx: u32 = (start as u32 - 0x10) / 4;
            let val: u32 = u32_from_le(data, 0);
            let ghost before = self.mmio_regions@;
            proof {
                lemma_registers_stay(before, bar_idx, val);
            }
            if write_bar_register(&mut self.mmio_regions, bar_idx, val) {
                self.remap = true;
                return ConfigWrite::ReadCommand;
            }
        }
        ConfigWrite::Done
    }
}

proof fn lemma_registers_stay(regions: Seq<PciBarConfiguration>, bar_idx: u32, val: u32)
    requires
        crate::bar::registers_exist(regions),
        crate::bar::all_memory(regions),
    ensures
        crate::bar::registers_exist(regions_rewritten(regions, bar_idx, val)),
        crate::bar::all_memory(regions_rewritten(regions, bar_idx, val)),
{
    let after = regions_rewritten(regions, bar_idx, val);
    assert forall|i: int| 0 <= i < after.len() implies (#[trigger] after[i]).memory() && (
    after[i].region_type == crate::bar::PciBarRegionType::Memory64BitRegion ==> after[i].bar_idx
        <= 6) by {
        crate::bar::law_bar_writes_only_move_regions(regions, bar_idx, val, i);
        assert(regions[i].memory());
    }
}

/// How far a write to config space is from its end. Writing the data through to the host device is
/// at nine.
pub open spec fn write_rank(at: ConfigWrite) -> nat {
    match at {
        ConfigWrite::Worker(WorkerStart::CreateRequestEvent { .. }) => 105,
        ConfigWrite::Worker(WorkerStart::EnableRequestIrq { .. }) => 104,
        ConfigWrite::Worker(WorkerStart::CreateKillEvent { .. }) => 103,
        ConfigWrite::Worker(WorkerStart::Spawn { .. }) => 102,
        ConfigWrite::Worker(WorkerStart::Done) => 101,
        ConfigWrite::Msi(MsiWrite::CreateEvent) => 64,
        ConfigWrite::Msi(MsiWrite::Allocate(_)) => 63,
        ConfigWrite::Msi(MsiWrite::Route(..)) => 62,
        ConfigWrite::Msi(MsiWrite::Done(_)) => 61,
        ConfigWrite::MsiSwitch(step) => 40 + irq_rank(step),
        ConfigWrite::MsixControl => 30,
        ConfigWrite::MsixSwitch(step) => 10 + irq_rank(step),
        ConfigWrite::WriteThrough => 9,
        ConfigWrite::ReadCommand => 2,
        ConfigWrite::MapBars => 1,
        ConfigWrite::Done => 0,
    }
}

/// Emulating MSI goes no further back than to the step that it is at.
proof fn lemma_msi_rank(d: DeviceView, next: MsiWrite, start: u64, len: nat)
    ensures
        write_rank(d.msi_going_on(next, start, len)) <= write_rank(ConfigWrite::Msi(next)),
        next matches MsiWrite::Route(_, change) ==> write_rank(
            d.msi_switch_phase(d.msi_switch(change), start, len),
        ) < 61,
{
}

proof fn lemma_msi_phase_rank(d: DeviceView, start: u64, data: Seq<u8>)
    ensures
        write_rank(d.msi_phase(start, data).1) <= 64,
{
    if let Some(cap) = d.msi_cap {
        let written = cap.written(start - cap.offset, data);
        lemma_msi_rank(
            DeviceView { msi_cap: Some(written), ..d },
            cap.follow_up(written),
            start,
            data.len(),
        );
    }
}

/// Every write to config space comes to an end, whatever the replies are.
pub proof fn law_config_write_ends(
    d: DeviceView,
    at: ConfigWrite,
    reply: ConfigReply,
    start: u64,
    data: Seq<u8>,
)
    requires
        at.takes(reply),
        at != ConfigWrite::Done,
    ensures
        write_rank(d.write_after(at, reply, start, data).1) < write_rank(at),
{
    match at {
        ConfigWrite::Worker(_) => {
            lemma_msi_phase_rank(d, start, data);
            lemma_msi_phase_rank(DeviceView { worker_thread: true, ..d }, start, data);
        },
        ConfigWrite::Msi(next) => {
            lemma_msi_rank(d, next, start, data.len());
            if let Some(cap) = d.msi_cap {
                let next = d.write_after(at, reply, start, data).0;
                lemma_msi_rank(next, next.msi_cap->0.allocation(), start, data.len());
                lemma_msi_rank(
                    next,
                    next.msi_cap->0.routed(Some(VfioMsiChange::Enable)),
                    start,
                    data.len(),
                );
            }
        },
        ConfigWrite::MsiSwitch(step) => {
            law_irq_switch_ends(d, step, reply->Success_0);
        },
        ConfigWrite::MsixSwitch(step) => {
            law_irq_switch_ends(d, step, reply->Success_0);
        },
        _ => {},
    }
}

/// Whatever the emulation does with a write, the data is written through to the host device, and
/// only once: a write begins no later than there, no reply leads past it, and none leads back.
pub proof fn law_config_write_reaches_the_host_device(
    d: DeviceView,
    at: ConfigWrite,
    reply: ConfigReply,
    start: u64,
    data: Seq<u8>,
)
    requires
        at.takes(reply),
    ensures
        write_rank(d.write_begun(start, data).1) >= write_rank(ConfigWrite::WriteThrough),
        write_rank(at) > write_rank(ConfigWrite::WriteThrough) ==> write_rank(
            d.write_after(at, reply, start, data).1,
        ) >= write_rank(ConfigWrite::WriteThrough),
        write_rank(at) <= write_rank(ConfigWrite::WriteThrough) ==> write_rank(
            d.write_after(at, reply, start, data).1,
        ) < write_rank(ConfigWrite::WriteThrough),
        write_rank(at) == write_rank(ConfigWrite::WriteThrough) <==> at
            == ConfigWrite::WriteThrough,
{
}

/// A guest write to config space, and what it meets with.
pub struct GuestWrite {
    /// Where the write starts.
    pub start: u64,
    pub data: Seq<u8>,
    /// The replies to its steps, in order.
    pub replies: Seq<ConfigReply>,
    /// The mappings made if the BARs are mapped anew.
    pub slots: Seq<MemSlot>,
}

impl GuestWrite {
    /// The write once its first reply was taken.
    pub open spec fn rest(self) -> GuestWrite {
        GuestWrite { replies: self.replies.drop_first(), ..self }
    }

    /// The device and the step after the first reply was taken at `at`.
    pub open spec fn step(self, d: DeviceView, at: ConfigWrite) -> (DeviceView, ConfigWrite) {
        let d = if at == ConfigWrite::MapBars {
            d.bars_remapped(self.slots)
        } else {
            d
        };
        d.write_after(at, self.replies[0], self.start, self.data)
    }

    /// Whether no reply is left to be taken at `at`.
    pub open spec fn over(self, at: ConfigWrite) -> bool {
        self.replies.len() == 0 || at == ConfigWrite::Done
    }

    /// The device and the step that the write comes to from `at`.
    pub open spec fn run(self, d: DeviceView, at: ConfigWrite) -> (DeviceView, ConfigWrite)
        decreases self.replies.len(),
    {
        if self.over(at) {
            (d, at)
        } else {
            let (after, next) = self.step(d, at);
            self.rest().run(after, next)
        }
    }

    /// Whether each reply is of the kind that the write asks for when it comes.
    pub open spec fn fits(self, d: DeviceView, at: ConfigWrite) -> bool
        decreases self.replies.len(),
    {
        self.over(at) || {
            let (after, next) = self.step(d, at);
            at.takes(self.replies[0]) && self.rest().fits(after, next)
        }
    }

    /// How often the data is written through to the host device from `at` on.
    pub open spec fn times_written_through(self, d: DeviceView, at: ConfigWrite) -> nat
        decreases self.replies.len(),
    {
        if self.over(at) {
            0
        } else {
            let (after, next) = self.step(d, at);
            (if at == ConfigWrite::WriteThrough {
                1nat
            } else {
                0
            }) + self.rest().times_written_through(after, next)
        }
    }

    /// Whether the worker is dealt with at `at` or later.
    pub open spec fn deals_with_worker(self, d: DeviceView, at: ConfigWrite) -> bool
        decreases self.replies.len(),
    {
        at is Worker || (!self.over(at) && {
            let (after, next) = self.step(d, at);
            self.rest().deals_with_worker(after, next)
        })
    }

    /// How the write begins.
    pub open spec fn begun(self, d: DeviceView) -> (DeviceView, ConfigWrite) {
        d.write_begun(self.start, self.data)
    }

    /// The device after the write.
    pub open spec fn done_to(self, d: DeviceView) -> DeviceView {
        let (begun, at) = self.begun(d);
        self.run(begun, at).0
    }

    /// Whether the write has anything to do with starting the worker.
    pub open spec fn starts_worker(self, d: DeviceView) -> bool {
        let (begun, at) = self.begun(d);
        self.deals_with_worker(begun, at)
    }
}

proof fn lemma_times_written_through(w: GuestWrite, d: DeviceView, at: ConfigWrite)
    requires
        w.fits(d, at),
        w.run(d, at).1 == ConfigWrite::Done,
    ensures
        w.times_written_through(d, at) == (if write_rank(at) >= write_rank(
            ConfigWrite::WriteThrough,
        ) {
            1int
        } else {
            0
        }),
    decreases w.replies.len(),
{
    if !w.over(at) {
        let (after, next) = w.step(d, at);
        law_config_write_reaches_the_host_device(d, at, w.replies[0], w.start, w.data);
        lemma_times_written_through(w.rest(), after, next);
    }
}

/// By the time that a write is done, its data was written through to the host device exactly once,
/// whatever the replies were.
pub proof fn law_data_is_written_through_once(w: GuestWrite, d: DeviceView)
    requires
        ({
            let (begun, at) = w.begun(d);
            w.fits(begun, at) && w.run(begun, at).1 == ConfigWrite::Done
        }),
    ensures
        ({
            let (begun, at) = w.begun(d);
            w.times_written_through(begun, at) == 1
        }),
{
    let (begun, at) = w.begun(d);
    law_config_write_reaches_the_host_device(
        d,
        ConfigWrite::Done,
        ConfigReply::Finished,
        w.start,
        w.data,
    );
    lemma_times_written_through(w, begun, at);
}

/// Starting the worker is begun at most once: that takes the socket away, no reply to a write brings
/// a socket back, and without one no write begins to start the worker, or comes to it later.
pub proof fn law_worker_is_started_at_most_once(
    d: DeviceView,
    at: ConfigWrite,
    reply: ConfigReply,
    start: u64,
    data: Seq<u8>,
)
    ensures
        d.worker_begun().0.vm_socket_vm is None,
        d.write_after(at, reply, start, data).0.vm_socket_vm == d.vm_socket_vm,
        d.vm_socket_vm is None ==> d.write_begun(start, data).0.vm_socket_vm is None && !(
        d.write_begun(start, data).1 is Worker),
        !(at is Worker) ==> !(d.write_after(at, reply, start, data).1 is Worker),
{
}

proof fn lemma_run_keeps_socket(w: GuestWrite, d: DeviceView, at: ConfigWrite)
    ensures
        w.run(d, at).0.vm_socket_vm == d.vm_socket_vm,
        !(at is Worker) ==> !w.deals_with_worker(d, at),
    decreases w.replies.len(),
{
    if !w.over(at) {
        let (after, next) = w.step(d, at);
        let mapped = d.bars_remapped(w.slots);
        law_worker_is_started_at_most_once(d, at, w.replies[0], w.start, w.data);
        law_worker_is_started_at_most_once(mapped, at, w.replies[0], w.start, w.data);
        lemma_run_keeps_socket(w.rest(), after, next);
    }
}

/// The device after `writes`, one after the other.
pub open spec fn after_writes(d: DeviceView, writes: Seq<GuestWrite>) -> DeviceView
    decreases writes.len(),
{
    if writes.len() == 0 {
        d
    } else {
        writes.last().done_to(after_writes(d, writes.drop_last()))
    }
}

proof fn lemma_socket_is_gone(d: DeviceView, writes: Seq<GuestWrite>)
    requires
        d.vm_socket_vm is Some ==> !d.worker_thread,
        writes.len() > 0,
    ensures
        after_writes(d, writes).vm_socket_vm is None,
    decreases writes.len(),
{
    let w = writes.last();
    let before = after_writes(d, writes.drop_last());
    if writes.len() > 1 {
        lemma_socket_is_gone(d, writes.drop_last());
    }
    let (begun, at) = w.begun(before);
    lemma_run_keeps_socket(w, begun, at);
}

/// Of any sequence of writes to config space, the first begins with starting the worker, if there is
/// a socket for it. No later one has anything to do with the worker, even if it could not be
/// started: after the first write there is no socket any more.
pub proof fn law_only_the_first_write_starts_the_worker(
    d: DeviceView,
    writes: Seq<GuestWrite>,
    n: int,
)
    requires
        !d.worker_thread,
        0 <= n < writes.len(),
    ensures
        n == 0 ==> (match d.vm_socket_vm {
            Some(vm_socket) => writes[0].begun(d).1 == ConfigWrite::Worker(
                WorkerStart::CreateRequestEvent { vm_socket },
            ),
            None => !writes[0].starts_worker(d),
        }),
        n > 0 ==> !writes[n].starts_worker(after_writes(d, writes.take(n))),
        after_writes(d, writes.take(n + 1)).vm_socket_vm is None,
{
    let before = after_writes(d, writes.take(n));
    if n > 0 {
        lemma_socket_is_gone(d, writes.take(n));
    }
    lemma_socket_is_gone(d, writes.take(n + 1));
    let (begun, at) = writes[n].begun(before);
    lemma_run_keeps_socket(writes[n], begun, at);
}

/// A write outside of what is emulated goes to the host device, and does nothing else, once the
/// worker was started.
pub proof fn law_plain_config_write_only_goes_through(d: DeviceView, start: u64, data: Seq<u8>)
    requires
        !d.worker_wanted(),
        d.msi_cap matches Some(cap) ==> !cap.holds(start as int, data.len() as int),
        !d.msix_control_written(start, data.len()),
        !d.enables_memory(start, data),
        !(0x10 <= start <= 0x24 && data.len() == 4),
    ensures
        d.write_begun(start, data) == (d, ConfigWrite::WriteThrough),
        d.write_after(ConfigWrite::WriteThrough, ConfigReply::Finished, start, data) == (
            d,
            ConfigWrite::Done,
        ),
{
}

/// Where a write moves a region, the BARs are marked to be mapped anew, and are mapped anew at once
/// if memory space accesses are enabled.
pub proof fn law_moved_regions_are_mapped_anew(
    d: DeviceView,
    start: u64,
    data: Seq<u8>,
    command: u8,
)
    requires
        d.written_through(start, data).0.mmio_regions != d.mmio_regions,
    ensures
        d.written_through(start, data).0.remap,
        d.written_through(start, data).1 == ConfigWrite::ReadCommand,
        d.write_after(ConfigWrite::ReadCommand, ConfigReply::Command(command), start, data).1 == (
        if command / 2 % 2 == 1 {
            ConfigWrite::MapBars
        } else {
            ConfigWrite::Done
        }),
{
}

/// When the guest enables memory space accesses, the BARs are mapped if that is due, and once they
/// are mapped it is no longer due.
pub proof fn law_bars_are_mapped_once(
    d: DeviceView,
    slots: Seq<MemSlot>,
    start: u64,
    data: Seq<u8>,
)
    requires
        d.enables_memory(start, data),
    ensures
        d.written_through(start, data) == (d, ConfigWrite::MapBars),
        ({
            let mapped = d.bars_remapped(slots);
            mapped.written_through(start, data) == (mapped, ConfigWrite::Done)
        }),
{
}

proof fn lemma_second_byte_cleared(config: u32)
    ensures
        ({
            let r = (config - config % 0x1_0000 + config % 0x100) as u32;
            &&& r / 0x100 % 0x100 == 0
            &&& r % 0x100 == config % 0x100
            &&& r / 0x1_0000 == config / 0x1_0000
        }),
{
    let a = config / 0x1_0000;
    let b = config % 0x100;
    let r = (config - config % 0x1_0000 + config % 0x100) as u32;
    assert(r == 0x1_0000 * a + b);
    assert(r / 0x100 == 0x100 * a);
}

/// Of an Intel graphics device, the byte of config space with the size of the stolen memory reads as
/// zero, and the bytes around it as the host device has them.
pub proof fn law_stolen_memory_reads_as_none(d: DeviceView, config: u32)
    requires
        d.intel_gfx(),
    ensures
        d.quirked(0x50, config) / 0x100 % 0x100 == 0,
        d.quirked(0x50, config) % 0x100 == config % 0x100,
        d.quirked(0x50, config) / 0x1_0000 == config / 0x1_0000,
{
    lemma_second_byte_cleared(config);
}

/// A BAR register that belongs to an I/O region and to no memory region reads as zero.
pub proof fn law_io_bars_read_as_zero(d: DeviceView, reg: u32, config: u32, i: int)
    requires
        d.wf(),
        0x10 <= reg <= 0x24,
        0 <= i < d.io_regions.len(),
        d.io_regions[i].bar_idx == (reg - 0x10) / 4,
        forall|j: int|
            0 <= j < d.mmio_regions.len() ==> (#[trigger] d.mmio_regions[j]).bar_idx != (reg - 0x10)
                / 4,
    ensures
        d.read_after_register(reg, config) == (ConfigRead::Command { reg, config }),
        d.bar_register_read(reg, config) == 0,
{
    let all = d.mmio_regions + d.io_regions;
    assert(all[d.mmio_regions.len() + i] == d.io_regions[i]);
    lemma_region_of_bar(all, ((reg - 0x10) / 4) as usize, d.mmio_regions.len() + i);
    let bar = d.bar_region(((reg - 0x10) / 4) as usize)->0;
    let k = choose|k: int| 0 <= k < all.len() && all[k] == bar;
    if k < d.mmio_regions.len() {
        assert(d.mmio_regions[k] == bar);
    } else {
        assert(d.io_regions[k - d.mmio_regions.len()] == bar);
    }
}

/// Of a device that is not an Intel graphics device, the guest reads what the host device has,
/// outside of the emulated MSI-X message control and of the registers of I/O regions.
pub proof fn law_plain_config_read_is_the_host_devices(d: DeviceView, reg: u32, config: u32)
    requires
        !d.intel_gfx(),
        d.msix_cap matches Some(cap) ==> !cap.control_touched(reg, 4),
        0x10 <= reg <= 0x24 ==> (d.bar_region(((reg - 0x10) / 4) as usize) matches Some(bar)
            ==> bar.memory()),
    ensures
        match d.read_after_register(reg, config) {
            ConfigRead::Done { config: read } => read == config,
            ConfigRead::Command { reg: r, config: c } => d.bar_register_read(r, c) == config,
            _ => false,
        },
{
}

/// When MSI is switched on for the first time and the host and the VM do as asked, an event is
/// created, an interrupt is allocated for it and routed to the message that the guest wrote, and
/// the device is then switched to MSI with that event.
pub proof fn law_enabling_msi_gets_a_routed_interrupt(
    d: DeviceView,
    irqfd: RawDescriptor,
    gsi: u32,
    start: u64,
    data: Seq<u8>,
)
    requires
        d.msi_cap is Some,
        d.msi_cap->0.irqfd is None,
    ensures
        d.msi_cap->0.enabling() == MsiWrite::CreateEvent,
        ({
            let cap = VfioMsiCap { irqfd: Some(irqfd), ..d.msi_cap->0 };
            let d1 = DeviceView { msi_cap: Some(cap), ..d };
            let d2 = DeviceView { msi_cap: Some(VfioMsiCap { gsi: Some(gsi), ..cap }), ..d };
            let allocate = ConfigWrite::Msi(
                MsiWrite::Allocate(VmIrqRequest::AllocateOneMsi { irqfd }),
            );
            let route = ConfigWrite::Msi(
                MsiWrite::Route(
                    VmIrqRequest::AddMsiRoute {
                        gsi,
                        msi_address: cap.address,
                        msi_data: cap.data as u32,
                    },
                    Some(VfioMsiChange::Enable),
                ),
            );
            &&& d.write_after(
                ConfigWrite::Msi(MsiWrite::CreateEvent),
                ConfigReply::Event(Some(irqfd)),
                start,
                data,
            ) == (d1, allocate)
            &&& d1.write_after(allocate, ConfigReply::Gsi(Some(gsi)), start, data) == (d2, route)
            &&& d2.write_after(route, ConfigReply::Finished, start, data) == (
                d2,
                d2.msi_switch_phase(
                    d2.irqs_disabling(AfterIrqs::EnableMsi),
                    start,
                    data.len(),
                ),
            )
            &&& d2.irq_type is None ==> d2.irqs_disabling(AfterIrqs::EnableMsi) == (
            IrqStep::EnableMsi { irqfd })
        }),
{
}

/// A four-byte write to BAR register `n`, which is at 0x10 and four more for each register before it,
/// moves the first region that has the register, and no other. The half of the address that the
/// register holds becomes what was written; the lowest four bits of the lower half are no address
/// bits. If the region has moved, the BARs have to be mapped anew, and the command register is read
/// next; otherwise the write is done. Regions without that register stay where they are.
pub proof fn law_bar_register_write_moves_its_region(
    d: DeviceView,
    start: u64,
    data: Seq<u8>,
    n: u32,
    k: int,
)
    requires
        n <= 5,
        0x10 + 4 * n <= start < 0x14 + 4 * n,
        start <= 0x24,
        data.len() == 4,
        0 <= k < d.mmio_regions.len(),
        owns_register(d.mmio_regions[k], n as int),
        forall|j: int| 0 <= j < k ==> !owns_register(#[trigger] d.mmio_regions[j], n as int),
    ensures
        ({
            let (after, next) = d.written_through(start, data);
            let v = data[0] + 0x100 * data[1] + 0x1_0000 * data[2] + 0x100_0000 * data[3];
            let half = 0x1_0000_0000u64;
            let before = d.mmio_regions[k];
            let region = after.mmio_regions[k];
            let wide = before.region_type == PciBarRegionType::Memory64BitRegion;
            &&& after.mmio_regions.len() == d.mmio_regions.len()
            &&& forall|j: int|
                0 <= j < d.mmio_regions.len() && j != k ==> #[trigger] after.mmio_regions[j]
                    == d.mmio_regions[j]
            &&& region == (PciBarConfiguration { addr: region.addr, ..before })
            &&& before.bar_idx == n ==> region.addr % half == v - v % 16
            &&& before.bar_idx == n && wide ==> region.addr / half == before.addr / half
            &&& before.bar_idx == n && !wide && before.addr < half ==> region.addr == v - v % 16
            &&& before.bar_idx != n ==> region.addr / half == v && region.addr % half == before.addr
                % half
            &&& region.addr != before.addr ==> after.remap && next == ConfigWrite::ReadCommand
            &&& region.addr == before.addr ==> after.remap == d.remap && next == ConfigWrite::Done
            &&& after == (DeviceView {
                mmio_regions: after.mmio_regions,
                remap: after.remap,
                ..d
            })
        }),
{
    let v = crate::bytes::le32(data, 0);
    assert(0 <= v < 0x1_0000_0000);
    assert((start - 0x10) / 4 == n);
    law_bar_write_moves_the_first_owner(d.mmio_regions, n, v as u32, k);
    let regions = regions_rewritten(d.mmio_regions, n, v as u32);
    if regions[k].addr == d.mmio_regions[k].addr {
        assert(regions =~= d.mmio_regions);
    }
}

/// Any other write moves no region: one to a BAR register that no region has, one that is not of four
/// bytes, and one elsewhere in config space.
pub proof fn law_other_writes_move_no_region(d: DeviceView, start: u64, data: Seq<u8>)
    requires
        0x10 <= start <= 0x24 && data.len() == 4 ==> forall|j: int|
            0 <= j < d.mmio_regions.len() ==> !owns_register(
                #[trigger] d.mmio_regions[j],
                (start - 0x10) / 4,
            ),
    ensures
        d.written_through(start, data).0 == d,
{
    if 0x10 <= start <= 0x24 && data.len() == 4 {
        law_unowned_bar_write_moves_nothing(
            d.mmio_regions,
            ((start - 0x10) / 4) as u32,
            crate::bytes::le32(data, 0) as u32,
        );
    }
}

/// The BARs are mapped at once exactly by a two-byte write to the command register, at 4, with bit 1
/// set, if mapping them is due. Nothing else about the device changes with it.
pub proof fn law_memory_bit_maps_the_bars(d: DeviceView, start: u64, data: Seq<u8>)
    ensures
        ({
            let (after, next) = d.written_through(start, data);
            let maps = start == 4 && data.len() == 2 && data[0] / 2 % 2 == 1 && d.remap;
            &&& next == ConfigWrite::MapBars <==> maps
            &&& maps ==> after == d
            &&& start < 0x10 || start > 0x24 || data.len() != 4 ==> after == d && (next
                == ConfigWrite::MapBars || next == ConfigWrite::Done)
        }),
{
}

/// Once the worker is started, a write that lies in the MSI capability, of 10 bytes and four and ten
/// more with 64-bit addresses and masking, is taken by the capability at its distance from the start
/// of it. Any other write leaves it as it is.
pub proof fn law_msi_write_reaches_the_capability(d: DeviceView, start: u64, data: Seq<u8>)
    requires
        !d.worker_wanted(),
        d.msi_cap is Some,
    ensures
        ({
            let cap = d.msi_cap->0;
            let bytes: int = if cap.is_64bit && cap.mask_cap {
                24
            } else if cap.mask_cap {
                20
            } else if cap.is_64bit {
                14
            } else {
                10
            };
            let (after, next) = d.write_begun(start, data);
            let inside = cap.offset <= start && start + data.len() <= cap.offset + bytes;
            &&& after == (DeviceView { msi_cap: after.msi_cap, ..d })
            &&& after.msi_cap == Some(
                if inside {
                    cap.written(start - cap.offset, data)
                } else {
                    cap
                },
            )
            &&& !inside ==> next == ConfigWrite::MsixControl || next == ConfigWrite::WriteThrough
        }),
{
}

/// What the guest writes to the registers of MSI is what the capability holds: two bytes at its start
/// and 2 are message control, and two bytes behind the address the message data.
pub proof fn law_msi_registers_in_config_space(d: DeviceView, start: u64, data: Seq<u8>)
    requires
        !d.worker_wanted(),
        d.msi_cap is Some,
        data.len() == 2,
    ensures
        ({
            let cap = d.msi_cap->0;
            let after = d.write_begun(start, data).0.msi_cap->0;
            let value = data[0] + 0x100 * data[1];
            &&& start == cap.offset + 2 ==> after.ctl == value && after.data == cap.data
            &&& start == cap.offset + (if cap.is_64bit {
                12int
            } else {
                8
            }) ==> after.data == value && after.ctl == cap.ctl
        }),
{
    let cap = d.msi_cap->0;
    crate::msi::law_registers_hold_what_was_written(cap, start - cap.offset, data);
}

/// A write that clears the enable bit of MSI has MSI disabled on the host, and one that sets it has it
/// enabled, once an interrupt with an event is at hand: the event is created and the interrupt asked
/// for if they are missing, and the interrupt routed if it is there.
pub proof fn law_enable_bit_of_msi_switches_the_interrupt(d: DeviceView, start: u64, data: Seq<u8>)
    requires
        !d.worker_wanted(),
        d.msi_cap is Some,
        start == d.msi_cap->0.offset + 2,
        data.len() == 2,
    ensures
        ({
            let cap = d.msi_cap->0;
            let next = d.write_begun(start, data).1;
            let was = cap.ctl % 2 == 1;
            let now = data[0] % 2 == 1;
            &&& was && !now ==> next == ConfigWrite::MsiSwitch(
                IrqStep::Disable {
                    kind: crate::device::VfioIrqType::Msi,
                    then: AfterIrqs::Nothing,
                },
            )
            &&& !was && now && cap.irqfd is None ==> next == ConfigWrite::Msi(MsiWrite::CreateEvent)
            &&& !was && now && cap.irqfd is Some && cap.gsi is None ==> next == ConfigWrite::Msi(
                MsiWrite::Allocate(VmIrqRequest::AllocateOneMsi { irqfd: cap.irqfd->0 }),
            )
            &&& !was && now && cap.irqfd is Some && cap.gsi is Some ==> next == ConfigWrite::Msi(
                MsiWrite::Route(
                    VmIrqRequest::AddMsiRoute {
                        gsi: cap.gsi->0,
                        msi_address: cap.address,
                        msi_data: cap.data as u32,
                    },
                    Some(VfioMsiChange::Enable),
                ),
            )
            &&& was == now ==> next == ConfigWrite::MsixControl || next == ConfigWrite::WriteThrough
        }),
{
    let cap = d.msi_cap->0;
    crate::msi::law_registers_hold_what_was_written(cap, 2, data);
    crate::msi::law_enable_bit_decides(cap, 2, data);
    assert(cap.written(2, data).ctl == data[0] + 0x100 * data[1]);
}

/// Once MSI is dealt with, the emulated MSI-X message control takes the data exactly if the write has
/// one of its two bytes, at 2 and 3 from the start of the capability; then, or at once, the data is
/// written through. The lower 32 bits of the place and of the length count.
pub proof fn law_msix_control_takes_its_bytes(d: DeviceView, start: u64, len: nat)
    requires
        len % 0x1_0000_0000 > 0,
    ensures
        ({
            let first = start % 0x1_0000_0000;
            let end = first + len % 0x1_0000_0000;
            d.msi_switch_phase(IrqStep::Done, start, len) == (if d.msix_cap is Some && first
                <= d.msix_cap->0.offset + 3 && end > d.msix_cap->0.offset + 2 {
                ConfigWrite::MsixControl
            } else {
                ConfigWrite::WriteThrough
            })
        }),
{
}

/// What message control of MSI-X became decides how the interrupt is switched: enabled, or unmasked
/// while it stays enabled, MSI-X is switched to; disabled, or masked while it stays enabled, it is
/// disabled on the host; and otherwise the data is written through at once.
pub proof fn law_msix_control_switches_the_interrupt(
    d: DeviceView,
    before: MsixStatus,
    after: MsixStatus,
    start: u64,
    data: Seq<u8>,
)
    ensures
        ({
            let (device, next) = d.write_after(
                ConfigWrite::MsixControl,
                ConfigReply::Msix(before, after),
                start,
                data,
            );
            let on = after.enabled && (!before.enabled || (before.masked && !after.masked));
            let off = before.enabled && (!after.enabled || (!before.masked && after.masked));
            &&& device == d
            &&& on ==> next == d.msix_switch_phase(d.msix_switch(Some(VfioMsiChange::Enable)))
            &&& off && !on ==> next == ConfigWrite::MsixSwitch(
                IrqStep::Disable {
                    kind: crate::device::VfioIrqType::Msix,
                    then: AfterIrqs::Nothing,
                },
            )
            &&& !on && !off ==> next == ConfigWrite::WriteThrough
        }),
{
}

/// The calls that switch the interrupt are made one after the other, and then the write goes on: after
/// MSI with MSI-X, and after MSI-X with writing the data through.
pub proof fn law_switching_goes_on_inside_a_write(
    d: DeviceView,
    step: IrqStep,
    ok: bool,
    start: u64,
    data: Seq<u8>,
)
    ensures
        ({
            let (irq_type, then) = d.irq_after(step, ok);
            let after = DeviceView { irq_type, ..d };
            let msi = d.write_after(
                ConfigWrite::MsiSwitch(step),
                ConfigReply::Success(ok),
                start,
                data,
            );
            let msix = d.write_after(
                ConfigWrite::MsixSwitch(step),
                ConfigReply::Success(ok),
                start,
                data,
            );
            &&& msi.0 == after && msix.0 == after
            &&& then != IrqStep::Done ==> msi.1 == ConfigWrite::MsiSwitch(then) && msix.1
                == ConfigWrite::MsixSwitch(then)
            &&& then == IrqStep::Done ==> (msi.1 == ConfigWrite::MsixControl || msi.1
                == ConfigWrite::WriteThrough) && msix.1 == ConfigWrite::WriteThrough
        }),
{
}

/// Where every reply is favourable, the worker is started with the socket, with the event through
/// which the host requests the device, which was made known to the host, and with one of the two
/// descriptors of an event of which the device keeps the other. Where one is not, there is no worker,
/// and the write goes on all the same.
pub proof fn law_worker_gets_its_events(
    d: DeviceView,
    vm_socket: RawDescriptor,
    req_evt: RawDescriptor,
    kept: RawDescriptor,
    kill_evt: RawDescriptor,
    start: u64,
    data: Seq<u8>,
)
    requires
        !d.worker_thread,
        d.vm_socket_vm == Some(vm_socket),
    ensures
        ({
            let create = ConfigWrite::Worker(WorkerStart::CreateRequestEvent { vm_socket });
            let enable = ConfigWrite::Worker(WorkerStart::EnableRequestIrq { vm_socket, req_evt });
            let kill = ConfigWrite::Worker(WorkerStart::CreateKillEvent { vm_socket, req_evt });
            let spawn = ConfigWrite::Worker(WorkerStart::Spawn { vm_socket, req_evt, kill_evt });
            let d0 = DeviceView { vm_socket_vm: None, ..d };
            let d1 = DeviceView { kill_evt: Some(kept), ..d0 };
            let d2 = DeviceView { worker_thread: true, ..d1 };
            &&& d.write_begun(start, data) == (d0, create)
            &&& d0.write_after(create, ConfigReply::Event(Some(req_evt)), start, data) == (
                d0,
                enable,
            )
            &&& d0.write_after(enable, ConfigReply::Success(true), start, data) == (d0, kill)
            &&& d0.write_after(
                kill,
                ConfigReply::EventPair(Some((kept, kill_evt))),
                start,
                data,
            ) == (d1, spawn)
            &&& d1.write_after(spawn, ConfigReply::Success(true), start, data) == d2.write_begun(
                start,
                data,
            )
            &&& d0.write_after(create, ConfigReply::Event(None), start, data) == d0.write_begun(
                start,
                data,
            )
            &&& d0.write_after(enable, ConfigReply::Success(false), start, data) == d0.write_begun(
                start,
                data,
            )
            &&& d0.write_after(kill, ConfigReply::EventPair(None), start, data) == d0.write_begun(
                start,
                data,
            )
            &&& d1.write_after(spawn, ConfigReply::Success(false), start, data) == d1.write_begun(
                start,
                data,
            )
        }),
{
}

/// What the guest reads of a register that is none of a BAR: with the emulated message control in it,
/// if it has one of the bytes at 2 and 3 of the MSI-X capability, and otherwise what the host device
/// has. Of an Intel graphics device, the second byte of register 0x50 reads as zero; no other register
/// is changed.
pub proof fn law_config_reads(d: DeviceView, reg: u32, config: u32)
    requires
        reg < 0x10 || reg > 0x24,
    ensures
        ({
            let emulated = d.msix_cap is Some && reg <= d.msix_cap->0.offset + 3 && reg + 4
                > d.msix_cap->0.offset + 2;
            let read = d.quirked(reg, config);
            &&& emulated ==> d.read_after_register(reg, config) == (ConfigRead::MsixControl {
                reg,
                config,
            })
            &&& !emulated ==> d.read_after_register(reg, config) == (ConfigRead::Done {
                config: read,
            })
            &&& reg != 0x50 || d.device_data is None ==> read == config
            &&& reg == 0x50 && d.device_data is Some ==> read % 0x100 == config % 0x100 && read
                / 0x100 % 0x100 == 0 && read / 0x1_0000 == config / 0x1_0000
        }),
{
    if reg == 0x50 && d.intel_gfx() {
        law_stolen_memory_reads_as_none(d, config);
    }
}

/// Without an event, or without an answer of the VM, there may be no interrupt to route, but MSI is
/// switched on all the same; an interrupt that is there from before is routed.
pub proof fn law_msi_is_switched_on_without_an_interrupt(
    d: DeviceView,
    request: VmIrqRequest,
    start: u64,
    data: Seq<u8>,
)
    requires
        d.msi_cap is Some,
    ensures
        ({
            let cap = d.msi_cap->0;
            let next = match cap.gsi {
                Some(gsi) => ConfigWrite::Msi(
                    MsiWrite::Route(
                        VmIrqRequest::AddMsiRoute {
                            gsi,
                            msi_address: cap.address,
                            msi_data: cap.data as u32,
                        },
                        Some(VfioMsiChange::Enable),
                    ),
                ),
                None => d.msi_switch_phase(
                    d.msi_switch(Some(VfioMsiChange::Enable)),
                    start,
                    data.len(),
                ),
            };
            &&& d.write_after(
                ConfigWrite::Msi(MsiWrite::CreateEvent),
                ConfigReply::Event(None),
                start,
                data,
            ) == (d, next)
            &&& d.write_after(
                ConfigWrite::Msi(MsiWrite::Allocate(request)),
                ConfigReply::Gsi(None),
                start,
                data,
            ) == (d, next)
        }),
{
}

/// A new route of an interrupt changes nothing about the device, and the change that led to it is then
/// carried out.
pub proof fn law_change_is_carried_out_after_routing(
    d: DeviceView,
    request: VmIrqRequest,
    change: Option<VfioMsiChange>,
    start: u64,
    data: Seq<u8>,
)
    ensures
        d.write_after(
            ConfigWrite::Msi(MsiWrite::Route(request, change)),
            ConfigReply::Finished,
            start,
            data,
        ) == (
            d,
            match change {
                Some(VfioMsiChange::Disable) => ConfigWrite::MsiSwitch(
                    IrqStep::Disable {
                        kind: crate::device::VfioIrqType::Msi,
                        then: AfterIrqs::Nothing,
                    },
                ),
                Some(VfioMsiChange::Enable) => d.msi_switch_phase(
                    d.irqs_disabling(AfterIrqs::EnableMsi),
                    start,
                    data.len(),
                ),
                None => d.msi_switch_phase(IrqStep::Done, start, data.len()),
            },
        ),
{
}

/// Every access within config space can be taken.
pub proof fn law_accesses_within_config_space_fit(d: DeviceView, start: u64, len: nat)
    requires
        start + len <= 0x1000,
    ensures
        d.access_fits(start, len),
{
}

/// What the guest reads of a BAR register: without a region the register is that of the host device;
/// with one the command register is read first, and then a memory region's is that of the host device,
/// and an I/O region's zero.
pub proof fn law_bar_reads(d: DeviceView, reg: u32, config: u32)
    requires
        0x10 <= reg <= 0x24,
    ensures
        match d.bar_region(((reg - 0x10) / 4) as usize) {
            None => d.read_after_register(reg, config) == (ConfigRead::Done { config }),
            Some(bar) => d.read_after_register(reg, config) == (ConfigRead::Command { reg, config })
                && d.bar_register_read(reg, config) == (if bar.region_type
                == PciBarRegionType::IoRegion {
                0
            } else {
                config
            }),
        },
{
}

} // verus!
