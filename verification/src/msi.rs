//! The MSI capability of a passed-through device.
//!
//! The guest's view of the capability is kept here. Writes to it decide when the VM has to be asked
//! for an interrupt, and when the route of that interrupt has to be changed. What has to be asked
//! is returned as an [`MsiWrite`], and the answer is handed back.
use vstd::prelude::*;

use crate::bytes::{u16_from_le, u32_from_le};

verus! {

/// A file descriptor, which stands for the object that it refers to.
pub type RawDescriptor = i32;

/// Offset of the message control register in the capability.
pub const PCI_MSI_FLAGS: u32 = 0x2;

/// Message control: MSI feature enabled.
pub const PCI_MSI_FLAGS_ENABLE: u16 = 0x0001;

/// Message control: 64-bit addresses allowed.
pub const PCI_MSI_FLAGS_64BIT: u16 = 0x0080;

/// Message control: per-vector masking capable.
pub const PCI_MSI_FLAGS_MASKBIT: u16 = 0x0100;

/// Offset of the lower 32 bits of the message address.
pub const PCI_MSI_ADDRESS_LO: u32 = 0x4;

/// Offset of the upper 32 bits of the message address, if 64-bit addresses are allowed.
pub const PCI_MSI_ADDRESS_HI: u32 = 0x8;

/// Offset of the 16 bits of data for a 32-bit message address.
pub const PCI_MSI_DATA_32: u32 = 0x8;

/// Offset of the 16 bits of data for a 64-bit message address.
pub const PCI_MSI_DATA_64: u32 = 0xC;

pub const MSI_LENGTH_32BIT_WITHOUT_MASK: u32 = 0xA;

pub const MSI_LENGTH_32BIT_WITH_MASK: u32 = 0x14;

pub const MSI_LENGTH_64BIT_WITHOUT_MASK: u32 = 0xE;

pub const MSI_LENGTH_64BIT_WITH_MASK: u32 = 0x18;

/// Whether a register write switched the interrupt on or off.
#[derive(Clone, Copy, PartialEq, Eq, Structural, Debug)]
pub enum VfioMsiChange {
    Disable,
    Enable,
}

/// A request to the VM about interrupts.
#[derive(Clone, Copy, PartialEq, Eq, Structural, Debug)]
pub enum VmIrqRequest {
    /// Allocate an interrupt that is triggered through `irqfd`.
    AllocateOneMsi { irqfd: RawDescriptor },
    /// Let interrupt `gsi` deliver this message.
    AddMsiRoute { gsi: u32, msi_address: u64, msi_data: u32 },
    /// Release the interrupt.
    ReleaseOneIrq { gsi: u32, irqfd: RawDescriptor },
}

/// What is left to be done for a write to the capability.
#[derive(Clone, Copy, PartialEq, Eq, Structural, Debug)]
pub enum MsiWrite {
    /// Create an event, and hand it to [`VfioMsiCap::event_created`].
    CreateEvent,
    /// Send the request, and hand the allocated interrupt to [`VfioMsiCap::msi_allocated`].
    Allocate(VmIrqRequest),
    /// Send the request, whatever comes back. The write is then done, with this change.
    Route(VmIrqRequest, Option<VfioMsiChange>),
    /// The write is done, with this change.
    Done(Option<VfioMsiChange>),
}

/// The MSI capability.
#[derive(Clone, Copy, PartialEq, Eq, Structural, Debug)]
pub struct VfioMsiCap {
    /// Where the capability starts in config space.
    pub offset: u32,
    pub is_64bit: bool,
    pub mask_cap: bool,
    pub ctl: u16,
    pub address: u64,
    pub data: u16,
    /// The socket through which the VM is asked about interrupts.
    pub vm_socket_irq: RawDescriptor,
    /// The event that triggers the interrupt.
    pub irqfd: Option<RawDescriptor>,
    /// The interrupt allocated by the VM.
    pub gsi: Option<u32>,
}

/// `address` with its lower 32 bits replaced by `low`.
pub open spec fn with_low_half(address: u64, low: int) -> u64 {
    (address - address % 0x1_0000_0000 + low) as u64
}

/// `address` with its upper 32 bits replaced by `high`.
pub open spec fn with_high_half(address: u64, high: int) -> u64 {
    (address % 0x1_0000_0000 + 0x1_0000_0000 * high) as u64
}

proof fn lemma_halves(address: u64, low: int, high: int)
    requires
        0 <= low < 0x1_0000_0000,
        0 <= high < 0x1_0000_0000,
    ensures
        with_high_half(with_low_half(address, low), high) == low + 0x1_0000_0000 * high,
        with_low_half(with_high_half(address, high), low) == low + 0x1_0000_0000 * high,
{
    let a = with_low_half(address, low);
    assert(a == address - address % 0x1_0000_0000 + low);
    assert(a % 0x1_0000_0000 == low);
    let b = with_high_half(address, high);
    assert(b == address % 0x1_0000_0000 + 0x1_0000_0000 * high);
    assert(b % 0x1_0000_0000 == address % 0x1_0000_0000);
}

impl VfioMsiCap {
    /// The end of the capability can be computed without overflow.
    pub open spec fn wf(&self) -> bool {
        self.offset + self.length() <= u32::MAX
    }

    /// Number of bytes that the capability occupies.
    pub open spec fn length(&self) -> int {
        10 + (if self.is_64bit {
            4int
        } else {
            0
        }) + (if self.mask_cap {
            10int
        } else {
            0
        })
    }

    /// Whether `index..index + len` in config space lies in the capability.
    pub open spec fn holds(&self, index: int, len: int) -> bool {
        self.offset <= index && index + len <= self.offset + self.length()
    }

    /// Whether the guest has enabled MSI.
    pub open spec fn enabled(&self) -> bool {
        self.ctl % 2 == 1
    }

    /// The capability after the guest has written `data` at `rel` bytes from its start.
    ///
    /// Only whole registers can be written; anything else changes nothing.
    pub open spec fn written(self, rel: int, data: Seq<u8>) -> VfioMsiCap {
        if data.len() == 2 && rel == 2 {
            VfioMsiCap { ctl: crate::bytes::le16(data) as u16, ..self }
        } else if data.len() == 4 && rel == 4 && !self.is_64bit {
            VfioMsiCap { address: crate::bytes::le32(data, 0) as u64, ..self }
        } else if data.len() == 4 && rel == 4 {
            VfioMsiCap {
                address: with_low_half(self.address, crate::bytes::le32(data, 0)),
                ..self
            }
        } else if data.len() == 4 && rel == 8 && self.is_64bit {
            VfioMsiCap {
                address: with_high_half(self.address, crate::bytes::le32(data, 0)),
                ..self
            }
        } else if data.len() == 8 && rel == 4 && self.is_64bit {
            VfioMsiCap { address: crate::bytes::le64(data) as u64, ..self }
        } else if data.len() == 2 && rel == (if self.is_64bit {
            12int
        } else {
            8
        }) {
            VfioMsiCap { data: crate::bytes::le16(data) as u16, ..self }
        } else {
            self
        }
    }

    /// The request that routes the interrupt to the current message, if there is an interrupt.
    pub open spec fn route(self) -> Option<VmIrqRequest> {
        match self.gsi {
            Some(gsi) => Some(
                VmIrqRequest::AddMsiRoute {
                    gsi,
                    msi_address: self.address,
                    msi_data: self.data as u32,
                },
            ),
            None => None,
        }
    }

    /// Routes the interrupt, if there is one; the write is then done.
    pub open spec fn routed(self, change: Option<VfioMsiChange>) -> MsiWrite {
        match self.route() {
            Some(request) => MsiWrite::Route(request, change),
            None => MsiWrite::Done(change),
        }
    }

    /// How the allocation of an interrupt starts: with a new event if there is none yet.
    pub open spec fn allocation(self) -> MsiWrite {
        match self.irqfd {
            Some(irqfd) => MsiWrite::Allocate(VmIrqRequest::AllocateOneMsi { irqfd }),
            None => MsiWrite::CreateEvent,
        }
    }

    /// Where an interrupt has to be allocated, how that starts; else the interrupt is routed.
    pub open spec fn enabling(self) -> MsiWrite {
        if self.gsi is None || self.irqfd is None {
            self.allocation()
        } else {
            self.routed(Some(VfioMsiChange::Enable))
        }
    }

    /// Whether, and how, MSI was switched between this state and `after`.
    pub open spec fn change_to(self, after: VfioMsiCap) -> Option<VfioMsiChange> {
        if !self.enabled() && after.enabled() {
            Some(VfioMsiChange::Enable)
        } else if self.enabled() && !after.enabled() {
            Some(VfioMsiChange::Disable)
        } else {
            None
        }
    }

    /// What a write that took the capability from this state to `after` asks for: an interrupt
    /// where MSI was switched on, and a new route where the message changed while it was on.
    pub open spec fn follow_up(self, after: VfioMsiCap) -> MsiWrite {
        let change = self.change_to(after);
        if change == Some(VfioMsiChange::Enable) {
            after.enabling()
        } else if after.enabled() && (self.address != after.address || self.data != after.data) {
            after.routed(change)
        } else {
            MsiWrite::Done(change)
        }
    }

    /// The capability that starts at `start` in config space and whose message control register
    /// reads `msi_ctl`, before the guest has written to it.
    pub open spec fn described(
        msi_ctl: u16,
        start: u32,
        vm_socket_irq: RawDescriptor,
    ) -> VfioMsiCap {
        VfioMsiCap {
            offset: start,
            is_64bit: msi_ctl / 128 % 2 == 1,
            mask_cap: msi_ctl / 256 % 2 == 1,
            ctl: 0,
            address: 0,
            data: 0,
            vm_socket_irq,
            irqfd: None,
            gsi: None,
        }
    }

    /// The capability that starts at `msi_cap_start` in config space and whose message control
    /// register reads `msi_ctl`.
    pub fn new(msi_ctl: u16, msi_cap_start: u32, vm_socket_irq: RawDescriptor) -> (cap: Self)
        ensures
            cap == Self::described(msi_ctl, msi_cap_start, vm_socket_irq),
    {
        assert((msi_ctl & 0x0080 != 0) == (msi_ctl / 128 % 2 == 1)) by (bit_vector);
        assert((msi_ctl & 0x0100 != 0) == (msi_ctl / 256 % 2 == 1)) by (bit_vector);
        VfioMsiCap {
            offset: msi_cap_start,
            is_64bit: (msi_ctl & PCI_MSI_FLAGS_64BIT) != 0,
            mask_cap: (msi_ctl & PCI_MSI_FLAGS_MASKBIT) != 0,
            ctl: 0,
            address: 0,
            data: 0,
            vm_socket_irq,
            irqfd: None,
            gsi: None,
        }
    }

    /// Whether a config space access of `len` bytes at `index` lies in the capability.
    pub fn is_msi_reg(&self, index: u64, len: usize) -> (r: bool)
        requires
            self.wf(),
            index >= self.offset ==> index + len <= u64::MAX,
        ensures
            r == self.holds(index as int, len as int),
    {
        let msi_len: u32 = match (self.is_64bit, self.mask_cap) {
            (true, true) => MSI_LENGTH_64BIT_WITH_MASK,
            (true, false) => MSI_LENGTH_64BIT_WITHOUT_MASK,
            (false, true) => MSI_LENGTH_32BIT_WITH_MASK,
            (false, false) => MSI_LENGTH_32BIT_WITHOUT_MASK,
        };
        index >= self.offset as u64 && index + len as u64 <= (self.offset + msi_len) as u64
            && len as u32 <= msi_len
    }

    /// Takes a guest write of `data` to config space at `index`, of which the lower 32 bits count.
    pub fn write_msi_reg(&mut self, index: u64, data: &[u8]) -> (next: MsiWrite)
        requires
            old(self).offset <= index % 0x1_0000_0000,
        ensures
            *final(self) == old(self).written(index % 0x1_0000_0000 - old(self).offset, data@),
            next == old(self).follow_up(*final(self)),
    {
        let len = data.len();
        proof {
            crate::bytes::lemma_low_half(index);
        }
        let offset: u32 = index as u32 - self.offset;
        let was_enabled = self.is_msi_enabled();
        let old_address: u64 = self.address;
        let old_data: u16 = self.data;
        let mut ret: Option<VfioMsiChange> = None;
        if len == 2 && offset == PCI_MSI_FLAGS {
            self.ctl = u16_from_le(data);
            let is_enabled = self.is_msi_enabled();
            if !was_enabled && is_enabled {
                return self.enable();
            } else if was_enabled && !is_enabled {
                ret = Some(VfioMsiChange::Disable);
            }
        } else if len == 4 && offset == PCI_MSI_ADDRESS_LO && !self.is_64bit {
            self.address = u32_from_le(data, 0) as u64;
        } else if len == 4 && offset == PCI_MSI_ADDRESS_LO && self.is_64bit {
            let low: u64 = u32_from_le(data, 0) as u64;
            assert((old_address & !0xffffffffu64) | low == old_address - old_address % 0x1_0000_0000
                + low) by (bit_vector)
                requires
                    low <= 0xffffffff,
            ;
            self.address = (self.address & !0xffffffffu64) | low;
        } else if len == 4 && offset == PCI_MSI_ADDRESS_HI && self.is_64bit {
            let high: u64 = u32_from_le(data, 0) as u64;
            assert((old_address & 0xffffffffu64) | (high << 32) == old_address % 0x1_0000_0000
                + 0x1_0000_0000 * high) by (bit_vector)
                requires
                    high <= 0xffffffff,
            ;
            self.address = (self.address & 0xffffffffu64) | (high << 32);
        } else if len == 8 && offset == PCI_MSI_ADDRESS_LO && self.is_64bit {
            let low: u64 = u32_from_le(data, 0) as u64;
            let high: u64 = u32_from_le(data, 4) as u64;
            self.address = low + 0x1_0000_0000 * high;
        } else if len == 2 && ((offset == PCI_MSI_DATA_32 && !self.is_64bit) || (offset
            == PCI_MSI_DATA_64 && self.is_64bit)) {
            self.data = u16_from_le(data);
        }
        if self.is_msi_enabled() && (old_address != self.address || old_data != self.data) {
            match self.add_msi_route() {
                Some(request) => MsiWrite::Route(request, ret),
                None => MsiWrite::Done(ret),
            }
        } else {
            MsiWrite::Done(ret)
        }
    }

    /// Whether the guest has enabled MSI.
    pub fn is_msi_enabled(&self) -> (r: bool)
        ensures
            r == self.enabled(),
    {
        let ctl: u16 = self.ctl;
        assert((ctl & 1 == 1) == (ctl % 2 == 1)) by (bit_vector);
        self.ctl & PCI_MSI_FLAGS_ENABLE == PCI_MSI_FLAGS_ENABLE
    }

    /// The request that routes the interrupt to the current message, if there is an interrupt.
    pub fn add_msi_route(&self) -> (request: Option<VmIrqRequest>)
        ensures
            request == self.route(),
    {
        match self.gsi {
            Some(gsi) => Some(
                VmIrqRequest::AddMsiRoute {
                    gsi,
                    msi_address: self.address,
                    msi_data: self.data as u32,
                },
            ),
            None => None,
        }
    }

    /// Starts to allocate an interrupt, with a new event if there is none yet.
    pub fn allocate_one_msi(&self) -> (next: MsiWrite)
        ensures
            next == self.allocation(),
    {
        match self.irqfd {
            Some(irqfd) => MsiWrite::Allocate(VmIrqRequest::AllocateOneMsi { irqfd }),
            None => MsiWrite::CreateEvent,
        }
    }

    /// Takes the event that was created for the interrupt, if one could be created.
    ///
    /// Without one no interrupt is allocated.
    pub fn event_created(&mut self, event: Option<RawDescriptor>) -> (next: MsiWrite)
        ensures
            match event {
                Some(irqfd) => *final(self) == (VfioMsiCap { irqfd: Some(irqfd), ..*old(self) })
                    && next == MsiWrite::Allocate(VmIrqRequest::AllocateOneMsi { irqfd }),
                None => *final(self) == *old(self) && next == old(self).routed(
                    Some(VfioMsiChange::Enable),
                ),
            },
    {
        match event {
            Some(irqfd) => {
                self.irqfd = Some(irqfd);
                self.allocate_one_msi()
            },
            None => self.finish_enable(),
        }
    }

    /// Takes the interrupt that the VM allocated, if it answered with one.
    pub fn msi_allocated(&mut self, gsi: Option<u32>) -> (next: MsiWrite)
        ensures
            *final(self) == (match gsi {
                Some(g) => VfioMsiCap { gsi: Some(g), ..*old(self) },
                None => *old(self),
            }),
            next == final(self).routed(Some(VfioMsiChange::Enable)),
    {
        if let Some(g) = gsi {
            self.gsi = Some(g);
        }
        self.finish_enable()
    }

    fn finish_enable(&self) -> (next: MsiWrite)
        ensures
            next == self.routed(Some(VfioMsiChange::Enable)),
    {
        match self.add_msi_route() {
            Some(request) => MsiWrite::Route(request, Some(VfioMsiChange::Enable)),
            None => MsiWrite::Done(Some(VfioMsiChange::Enable)),
        }
    }

    /// Starts to switch the interrupt on.
    pub fn enable(&self) -> (next: MsiWrite)
        ensures
            next == self.enabling(),
    {
        if self.gsi.is_none() || self.irqfd.is_none() {
            self.allocate_one_msi()
        } else {
            self.finish_enable()
        }
    }

    /// The event that triggers the interrupt.
    pub fn get_msi_irqfd(&self) -> (irqfd: Option<RawDescriptor>)
        ensures
            irqfd == self.irqfd,
    {
        self.irqfd
    }

    /// The request that gives the interrupt back, if one was allocated and not given back yet.
    pub fn destroy(&mut self) -> (request: Option<VmIrqRequest>)
        ensures
            match (old(self).gsi, old(self).irqfd) {
                (Some(gsi), Some(irqfd)) => request == Some(
                    VmIrqRequest::ReleaseOneIrq { gsi, irqfd },
                ) && *final(self) == (VfioMsiCap { irqfd: None, ..*old(self) }),
                _ => request is None && *final(self) == *old(self),
            },
    {
        if let Some(gsi) = self.gsi {
            if let Some(irqfd) = self.irqfd.take() {
                return Some(VmIrqRequest::ReleaseOneIrq { gsi, irqfd });
            }
        }
        None
    }
}

/// Writing the two halves of a 64-bit message address one after the other, in either order, is
/// the same as writing it at once.
pub proof fn law_address_halves_make_the_address(cap: VfioMsiCap, data: Seq<u8>)
    requires
        cap.is_64bit,
        data.len() == 8,
    ensures
        cap.written(4, data.take(4)).written(8, data.skip(4)) == cap.written(4, data),
        cap.written(8, data.skip(4)).written(4, data.take(4)) == cap.written(4, data),
{
    let low = crate::bytes::le32(data, 0);
    let high = crate::bytes::le32(data, 4);
    assert(crate::bytes::le32(data.take(4), 0) == low);
    assert(crate::bytes::le32(data.skip(4), 0) == high);
    assert(0 <= low < 0x1_0000_0000 && 0 <= high < 0x1_0000_0000);
    lemma_halves(cap.address, low, high);
    let whole = cap.written(4, data);
    assert(cap.written(4, data.take(4)).written(8, data.skip(4)).address == whole.address);
    assert(cap.written(8, data.skip(4)).written(4, data.take(4)).address == whole.address);
}

/// Register writes never change what kind of capability it is, nor its interrupt.
pub proof fn law_writes_keep_the_layout(cap: VfioMsiCap, rel: int, data: Seq<u8>)
    ensures
        cap.written(rel, data).offset == cap.offset,
        cap.written(rel, data).length() == cap.length(),
        cap.written(rel, data).irqfd == cap.irqfd,
        cap.written(rel, data).gsi == cap.gsi,
        cap.wf() ==> cap.written(rel, data).wf(),
{
}

/// While MSI is off after a write, nothing is asked of the VM.
pub proof fn law_disabled_msi_asks_for_nothing(cap: VfioMsiCap, rel: int, data: Seq<u8>)
    requires
        !cap.written(rel, data).enabled(),
    ensures
        cap.follow_up(cap.written(rel, data)) is Done,
{
}

/// A new route is asked for exactly when the message changes while MSI is on and has an interrupt,
/// or when MSI is switched on with an interrupt and its event at hand.
pub proof fn law_route_follows_the_message(cap: VfioMsiCap, rel: int, data: Seq<u8>)
    ensures
        ({
            let after = cap.written(rel, data);
            cap.follow_up(after) is Route <==> after.enabled() && after.gsi is Some && (
            if cap.enabled() {
                cap.address != after.address || cap.data != after.data
            } else {
                after.irqfd is Some
            })
        }),
{
}

/// What the message control register tells about a capability: with bit 7 set it has 64-bit
/// addresses, with bit 8 set a mask register. It occupies ten bytes, four more for the upper half of
/// the address, and ten more for masking. Before the guest has written to it, it is off, and has
/// neither event nor interrupt.
pub proof fn law_control_describes_the_capability(
    msi_ctl: u16,
    start: u32,
    socket: RawDescriptor,
    index: int,
    len: int,
)
    ensures
        ({
            let cap = VfioMsiCap::described(msi_ctl, start, socket);
            let wide = msi_ctl / 0x80 % 2 == 1;
            let mask = msi_ctl / 0x100 % 2 == 1;
            let bytes: int = if wide && mask {
                0x18
            } else if wide {
                0xE
            } else if mask {
                0x14
            } else {
                0xA
            };
            &&& cap.offset == start
            &&& cap.vm_socket_irq == socket
            &&& cap.is_64bit == wide
            &&& cap.mask_cap == mask
            &&& cap.length() == bytes
            &&& cap.holds(index, len) <==> start <= index && index + len <= start + bytes
            &&& cap.ctl == 0 && cap.address == 0 && cap.data == 0
            &&& cap.irqfd is None && cap.gsi is None
        }),
{
}

proof fn lemma_value_of_bytes(data: Seq<u8>, at: int)
    ensures
        0 <= crate::bytes::le32(data, at) < 0x1_0000_0000,
{
}

proof fn lemma_two_halves(low: int, high: int)
    requires
        0 <= low < 0x1_0000_0000,
        0 <= high < 0x1_0000_0000,
    ensures
        0 <= low + 0x1_0000_0000 * high <= u64::MAX,
        (low + 0x1_0000_0000 * high) % 0x1_0000_0000 == low,
        (low + 0x1_0000_0000 * high) / 0x1_0000_0000 == high,
{
}

proof fn lemma_new_half(address: u64, v: int)
    requires
        0 <= v < 0x1_0000_0000,
    ensures
        with_low_half(address, v) % 0x1_0000_0000 == v,
        with_low_half(address, v) / 0x1_0000_0000 == address / 0x1_0000_0000,
        with_high_half(address, v) % 0x1_0000_0000 == address % 0x1_0000_0000,
        with_high_half(address, v) / 0x1_0000_0000 == v,
{
    lemma_two_halves(v, (address / 0x1_0000_0000) as int);
    lemma_two_halves((address % 0x1_0000_0000) as int, v);
}

/// A register holds what the guest wrote to it last, byte for byte, and no write changes another
/// register. The registers are message control at 2, the address at 4 (with its upper half at 8 if
/// addresses have 64 bits), and the message data behind the address. What is not a write of one
/// whole register, or of both halves of the address, has no effect.
pub proof fn law_registers_hold_what_was_written(cap: VfioMsiCap, rel: int, data: Seq<u8>)
    ensures
        ({
            let after = cap.written(rel, data);
            let two = data[0] + 0x100 * data[1];
            let low = data[0] + 0x100 * data[1] + 0x1_0000 * data[2] + 0x100_0000 * data[3];
            let high = data[4] + 0x100 * data[5] + 0x1_0000 * data[6] + 0x100_0000 * data[7];
            let control = rel == 2 && data.len() == 2;
            let message = data.len() == 2 && rel == (if cap.is_64bit {
                12int
            } else {
                8
            });
            let lower = rel == 4 && data.len() == 4;
            let upper = rel == 8 && data.len() == 4 && cap.is_64bit;
            let both = rel == 4 && data.len() == 8 && cap.is_64bit;
            let half = 0x1_0000_0000u64;
            &&& after == (VfioMsiCap {
                ctl: after.ctl,
                address: after.address,
                data: after.data,
                ..cap
            })
            &&& after.ctl == (if control {
                two
            } else {
                cap.ctl as int
            })
            &&& after.data == (if message {
                two
            } else {
                cap.data as int
            })
            &&& after.address % half == (if lower || both {
                low
            } else {
                (cap.address % half) as int
            })
            &&& after.address / half == (if both {
                high
            } else if upper {
                low
            } else if lower && !cap.is_64bit {
                0
            } else {
                (cap.address / half) as int
            })
        }),
{
    let low = crate::bytes::le32(data, 0);
    let high = crate::bytes::le32(data, 4);
    lemma_value_of_bytes(data, 0);
    lemma_value_of_bytes(data, 4);
    lemma_new_half(cap.address, low);
    if data.len() == 8 {
        lemma_two_halves(low, high);
    }
}

/// What a write leads to is told by bit 0 of message control before and after it. A write that
/// switches MSI on goes on until an interrupt with an event was asked for: it creates the event if
/// there is none, and asks for the interrupt if there is none. The change that is reported in the end
/// is that of the bit.
pub proof fn law_enable_bit_decides(cap: VfioMsiCap, rel: int, data: Seq<u8>)
    ensures
        ({
            let after = cap.written(rel, data);
            let was = cap.ctl % 2 == 1;
            let now = after.ctl % 2 == 1;
            let change = if !was && now {
                Some(VfioMsiChange::Enable)
            } else if was && !now {
                Some(VfioMsiChange::Disable)
            } else {
                None
            };
            let moved = cap.address != after.address || cap.data != after.data;
            match cap.follow_up(after) {
                MsiWrite::CreateEvent => !was && now && cap.irqfd is None,
                MsiWrite::Allocate(request) => !was && now && cap.gsi is None && cap.irqfd is Some
                    && request == (VmIrqRequest::AllocateOneMsi { irqfd: cap.irqfd->0 }),
                MsiWrite::Route(request, c) => c == change && now && cap.gsi is Some && (was
                    ==> moved) && (!was ==> cap.irqfd is Some) && request
                    == (VmIrqRequest::AddMsiRoute {
                    gsi: cap.gsi->0,
                    msi_address: after.address,
                    msi_data: after.data as u32,
                }),
                MsiWrite::Done(c) => c == change && (now ==> was && (!moved || cap.gsi is None)),
            }
        }),
{
}

/// Once the VM has answered, an interrupt that it allocated is routed to the message of the
/// capability; without an interrupt there is nothing to route. Either way MSI was switched on.
pub proof fn law_allocated_interrupt_is_routed(cap: VfioMsiCap)
    ensures
        cap.routed(Some(VfioMsiChange::Enable)) == (match cap.gsi {
            Some(gsi) => MsiWrite::Route(
                VmIrqRequest::AddMsiRoute {
                    gsi,
                    msi_address: cap.address,
                    msi_data: cap.data as u32,
                },
                Some(VfioMsiChange::Enable),
            ),
            None => MsiWrite::Done(Some(VfioMsiChange::Enable)),
        }),
        cap.allocation() == (match cap.irqfd {
            Some(irqfd) => MsiWrite::Allocate(VmIrqRequest::AllocateOneMsi { irqfd }),
            None => MsiWrite::CreateEvent,
        }),
{
}

} // verus!
