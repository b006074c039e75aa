//! Looks through the config space of a device for what its emulation depends on.
//!
//! The capabilities form a linked list in config space. The scan says which register to read next,
//! and takes the value that was read.
use vstd::prelude::*;

use crate::msi::{RawDescriptor, VfioMsiCap, PCI_MSI_FLAGS};
use crate::msix::{VfioMsixCap, PCI_MSIX_FLAGS, PCI_MSIX_PBA, PCI_MSIX_TABLE};

verus! {

pub const PCI_VENDOR_ID: u32 = 0x0;

pub const PCI_BASE_CLASS_CODE: u32 = 0x0B;

/// Where the offset of the first capability is found.
pub const PCI_CAPABILITY_LIST: u32 = 0x34;

pub const PCI_CAP_ID_MSI: u8 = 0x05;

pub const PCI_CAP_ID_MSIX: u8 = 0x11;

/// Where, in a capability, the offset of the next one is found.
pub const PCI_MSI_NEXT_POINTER: u32 = 0x1;

/// A register of config space.
#[derive(Clone, Copy, PartialEq, Eq, Structural, Debug)]
pub struct ConfigRegister {
    pub offset: u32,
    /// Number of bytes: one, two or four.
    pub width: u8,
}

impl ConfigRegister {
    /// Whether `value` fits in the register.
    pub open spec fn fits(&self, value: u32) -> bool {
        &&& self.width == 1 ==> value < 0x100
        &&& self.width == 2 ==> value < 0x1_0000
    }
}

/// Which register is to be read next.
#[derive(Clone, Copy, PartialEq, Eq, Structural, Debug)]
pub enum ScanState {
    ListPointer,
    CapId { at: u8 },
    MsiControl { at: u8, socket: RawDescriptor },
    MsixControl { at: u8, socket: RawDescriptor },
    MsixTable { at: u8, socket: RawDescriptor, msix_ctl: u16 },
    MsixPba { at: u8, socket: RawDescriptor, msix_ctl: u16, table: u32 },
    NextPointer { at: u8 },
    VendorId,
    ClassCode { vendor_id: u16 },
    Done { vendor_id: u16, class_code: u8 },
}

/// A scan of config space.
#[derive(Clone, Copy, PartialEq, Eq, Structural, Debug)]
pub struct CapabilityScan {
    /// The socket for an MSI capability, until one is found.
    pub msi_socket: Option<RawDescriptor>,
    /// The socket for an MSI-X capability, until one is found.
    pub msix_socket: Option<RawDescriptor>,
    pub msi_cap: Option<VfioMsiCap>,
    pub msix_cap: Option<VfioMsixCap>,
    pub state: ScanState,
}

/// What follows when the list goes on at `at`.
pub open spec fn followed(at: u32) -> ScanState {
    if at != 0 {
        ScanState::CapId { at: at as u8 }
    } else {
        ScanState::VendorId
    }
}

impl CapabilityScan {
    /// The capabilities found are well formed.
    pub open spec fn wf(&self) -> bool {
        &&& self.msi_cap matches Some(cap) ==> cap.wf()
        &&& self.msix_cap matches Some(cap) ==> cap.wf()
    }

    /// The register that is to be read next.
    pub open spec fn wanted(&self) -> Option<ConfigRegister> {
        match self.state {
            ScanState::ListPointer => Some(ConfigRegister { offset: 0x34, width: 1 }),
            ScanState::CapId { at } => Some(ConfigRegister { offset: at as u32, width: 1 }),
            ScanState::MsiControl { at, .. } => Some(
                ConfigRegister { offset: (at + 2) as u32, width: 2 },
            ),
            ScanState::MsixControl { at, .. } => Some(
                ConfigRegister { offset: (at + 2) as u32, width: 2 },
            ),
            ScanState::MsixTable { at, .. } => Some(
                ConfigRegister { offset: (at + 4) as u32, width: 4 },
            ),
            ScanState::MsixPba { at, .. } => Some(
                ConfigRegister { offset: (at + 8) as u32, width: 4 },
            ),
            ScanState::NextPointer { at } => Some(
                ConfigRegister { offset: (at + 1) as u32, width: 1 },
            ),
            ScanState::VendorId => Some(ConfigRegister { offset: 0, width: 2 }),
            ScanState::ClassCode { .. } => Some(ConfigRegister { offset: 0x0B, width: 1 }),
            ScanState::Done { .. } => None,
        }
    }

    /// The scan after the wanted register was read as `value`.
    ///
    /// The first capability of each kind is taken, and any further one is passed over.
    pub open spec fn after(self, value: u32) -> CapabilityScan {
        match self.state {
            ScanState::ListPointer => CapabilityScan { state: followed(value), ..self },
            ScanState::CapId { at } => match (self.msi_socket, self.msix_socket) {
                (Some(socket), _) if value == 0x05 => CapabilityScan {
                    msi_socket: None,
                    state: ScanState::MsiControl { at, socket },
                    ..self
                },
                (_, Some(socket)) if value == 0x11 => CapabilityScan {
                    msix_socket: None,
                    state: ScanState::MsixControl { at, socket },
                    ..self
                },
                _ => CapabilityScan { state: ScanState::NextPointer { at }, ..self },
            },
            ScanState::MsiControl { at, socket } => CapabilityScan {
                msi_cap: Some(VfioMsiCap::described(value as u16, at as u32, socket)),
                state: ScanState::NextPointer { at },
                ..self
            },
            ScanState::MsixControl { at, socket } => CapabilityScan {
                state: ScanState::MsixTable { at, socket, msix_ctl: value as u16 },
                ..self
            },
            ScanState::MsixTable { at, socket, msix_ctl } => CapabilityScan {
                state: ScanState::MsixPba { at, socket, msix_ctl, table: value },
                ..self
            },
            ScanState::MsixPba { at, socket, msix_ctl, table } => CapabilityScan {
                msix_cap: Some(
                    VfioMsixCap::described(msix_ctl, table, value, at as u32, socket),
                ),
                state: ScanState::NextPointer { at },
                ..self
            },
            ScanState::NextPointer { .. } => CapabilityScan { state: followed(value), ..self },
            ScanState::VendorId => CapabilityScan {
                state: ScanState::ClassCode { vendor_id: value as u16 },
                ..self
            },
            ScanState::ClassCode { vendor_id } => CapabilityScan {
                state: ScanState::Done { vendor_id, class_code: value as u8 },
                ..self
            },
            ScanState::Done { .. } => self,
        }
    }

    /// The state before anything was read.
    pub open spec fn begun(msi_socket: RawDescriptor, msix_socket: RawDescriptor) -> CapabilityScan {
        CapabilityScan {
            msi_socket: Some(msi_socket),
            msix_socket: Some(msix_socket),
            msi_cap: None,
            msix_cap: None,
            state: ScanState::ListPointer,
        }
    }

    /// Begins a scan, with the sockets for the interrupts of the two kinds of capability.
    pub fn new(msi_socket: RawDescriptor, msix_socket: RawDescriptor) -> (scan: Self)
        ensures
            scan == Self::begun(msi_socket, msix_socket),
            scan.wf(),
    {
        CapabilityScan {
            msi_socket: Some(msi_socket),
            msix_socket: Some(msix_socket),
            msi_cap: None,
            msix_cap: None,
            state: ScanState::ListPointer,
        }
    }

    /// The register that is to be read next, unless the scan is done.
    pub fn next_register(&self) -> (register: Option<ConfigRegister>)
        ensures
            register == self.wanted(),
    {
        let (offset, width): (u32, u8) = match self.state {
            ScanState::ListPointer => (PCI_CAPABILITY_LIST, 1),
            ScanState::CapId { at } => (at as u32, 1),
            ScanState::MsiControl { at, .. } => (at as u32 + PCI_MSI_FLAGS, 2),
            ScanState::MsixControl { at, .. } => (at as u32 + PCI_MSIX_FLAGS, 2),
            ScanState::MsixTable { at, .. } => (at as u32 + PCI_MSIX_TABLE, 4),
            ScanState::MsixPba { at, .. } => (at as u32 + PCI_MSIX_PBA, 4),
            ScanState::NextPointer { at } => (at as u32 + PCI_MSI_NEXT_POINTER, 1),
            ScanState::VendorId => (PCI_VENDOR_ID, 2),
            ScanState::ClassCode { .. } => (PCI_BASE_CLASS_CODE, 1),
            ScanState::Done { .. } => {
                return None;
            },
        };
        Some(ConfigRegister { offset, width })
    }

    fn follow(at: u32) -> (state: ScanState)
        ensures
            state == followed(at),
    {
        if at != 0 {
            ScanState::CapId { at: at as u8 }
        } else {
            ScanState::VendorId
        }
    }

    /// Takes the value of the register that was to be read next.
    pub fn register_read(&mut self, value: u32)
        requires
            old(self).wf(),
            old(self).wanted() matches Some(register) && register.fits(value),
        ensures
            final(self).wf(),
            *final(self) == old(self).after(value),
    {
        match self.state {
            ScanState::ListPointer => {
                self.state = Self::follow(value);
            },
            ScanState::CapId { at } => {
                let mut state = ScanState::NextPointer { at };
                if value == PCI_CAP_ID_MSI as u32 {
                    if let Some(socket) = self.msi_socket.take() {
                        state = ScanState::MsiControl { at, socket };
                    }
                } else if value == PCI_CAP_ID_MSIX as u32 {
                    if let Some(socket) = self.msix_socket.take() {
                        state = ScanState::MsixControl { at, socket };
                    }
                }
                self.state = state;
            },
            ScanState::MsiControl { at, socket } => {
                self.msi_cap = Some(VfioMsiCap::new(value as u16, at as u32, socket));
                self.state = ScanState::NextPointer { at };
            },
            ScanState::MsixControl { at, socket } => {
                self.state = ScanState::MsixTable { at, socket, msix_ctl: value as u16 };
            },
            ScanState::MsixTable { at, socket, msix_ctl } => {
                self.state = ScanState::MsixPba { at, socket, msix_ctl, table: value };
            },
            ScanState::MsixPba { at, socket, msix_ctl, table } => {
                self.msix_cap = Some(VfioMsixCap::new(msix_ctl, table, value, at as u32, socket));
                self.state = ScanState::NextPointer { at };
            },
            ScanState::NextPointer { .. } => {
                self.state = Self::follow(value);
            },
            ScanState::VendorId => {
                self.state = ScanState::ClassCode { vendor_id: value as u16 };
            },
            ScanState::ClassCode { vendor_id } => {
                self.state = ScanState::Done { vendor_id, class_code: value as u8 };
            },
            ScanState::Done { .. } => {},
        }
    }
}

/// The value of a register in a config space of which `c` gives the bytes.
pub open spec fn config_value(c: spec_fn(int) -> u8, r: ConfigRegister) -> u32 {
    let o = r.offset as int;
    (if r.width == 1 {
        c(o) as int
    } else if r.width == 2 {
        c(o) + 0x100 * c(o + 1)
    } else {
        c(o) + 0x100 * c(o + 1) + 0x1_0000 * c(o + 2) + 0x100_0000 * c(o + 3)
    }) as u32
}

/// The scan after `n` more registers were read from the config space `c`.
pub open spec fn scan_steps(
    scan: CapabilityScan,
    c: spec_fn(int) -> u8,
    n: nat,
) -> CapabilityScan
    decreases n,
{
    match scan.wanted() {
        Some(r) if n > 0 => scan_steps(scan.after(config_value(c, r)), c, (n - 1) as nat),
        _ => scan,
    }
}

/// Whether `caps` are the offsets of the capabilities that a pointer `first` leads to, one after
/// the other.
pub open spec fn is_chain(c: spec_fn(int) -> u8, first: u8, caps: Seq<u8>) -> bool
    decreases caps.len(),
{
    if caps.len() == 0 {
        first == 0
    } else {
        first != 0 && caps[0] == first && is_chain(c, c(first + 1), caps.drop_first())
    }
}

/// The MSI capability at offset `at` of the config space `c`.
pub open spec fn msi_at(c: spec_fn(int) -> u8, at: u8, socket: RawDescriptor) -> VfioMsiCap {
    let ctl = config_value(c, ConfigRegister { offset: (at + 2) as u32, width: 2 });
    VfioMsiCap::described(ctl as u16, at as u32, socket)
}

/// The MSI-X capability at offset `at` of the config space `c`.
pub open spec fn msix_at(c: spec_fn(int) -> u8, at: u8, socket: RawDescriptor) -> VfioMsixCap {
    let ctl = config_value(c, ConfigRegister { offset: (at + 2) as u32, width: 2 });
    let table = config_value(c, ConfigRegister { offset: (at + 4) as u32, width: 4 });
    let pba = config_value(c, ConfigRegister { offset: (at + 8) as u32, width: 4 });
    VfioMsixCap::described(ctl as u16, table, pba, at as u32, socket)
}

/// The first of `caps` with the given id.
pub open spec fn first_with_id(c: spec_fn(int) -> u8, caps: Seq<u8>, id: u8) -> Option<u8>
    decreases caps.len(),
{
    if caps.len() == 0 {
        None
    } else if c(caps[0] as int) == id {
        Some(caps[0])
    } else {
        first_with_id(c, caps.drop_first(), id)
    }
}

/// What the scan has found once it has also seen `caps`.
spec fn absorbed(scan: CapabilityScan, c: spec_fn(int) -> u8, caps: Seq<u8>) -> CapabilityScan {
    let msi = first_with_id(c, caps, PCI_CAP_ID_MSI);
    let msix = first_with_id(c, caps, PCI_CAP_ID_MSIX);
    let scan = match (scan.msi_socket, msi) {
        (Some(socket), Some(at)) => CapabilityScan {
            msi_socket: None,
            msi_cap: Some(msi_at(c, at, socket)),
            ..scan
        },
        _ => scan,
    };
    match (scan.msix_socket, msix) {
        (Some(socket), Some(at)) => CapabilityScan {
            msix_socket: None,
            msix_cap: Some(msix_at(c, at, socket)),
            ..scan
        },
        _ => scan,
    }
}

proof fn lemma_steps_add(scan: CapabilityScan, c: spec_fn(int) -> u8, n: nat, m: nat)
    ensures
        scan_steps(scan, c, n + m) == scan_steps(scan_steps(scan, c, n), c, m),
    decreases n,
{
    if n > 0 {
        if let Some(r) = scan.wanted() {
            lemma_steps_add(scan.after(config_value(c, r)), c, (n - 1) as nat, m);
        }
    }
}

/// Reading one capability takes a few steps, after which the scan is at the next one.
proof fn lemma_one_capability(scan: CapabilityScan, c: spec_fn(int) -> u8, at: u8) -> (n: nat)
    requires
        scan.state == (ScanState::CapId { at }),
    ensures
        scan_steps(scan, c, n) == (CapabilityScan {
            state: followed(c(at + 1) as u32),
            ..absorbed(scan, c, seq![at])
        }),
{
    reveal_with_fuel(scan_steps, 6);
    reveal_with_fuel(first_with_id, 2);
    let id = c(at as int);
    assert(first_with_id(c, seq![at].drop_first(), PCI_CAP_ID_MSI) is None);
    assert(first_with_id(c, seq![at].drop_first(), PCI_CAP_ID_MSIX) is None);
    if id == PCI_CAP_ID_MSI && scan.msi_socket is Some {
        3
    } else if id == PCI_CAP_ID_MSIX && scan.msix_socket is Some {
        5
    } else {
        2
    }
}

proof fn lemma_whole_list(
    scan: CapabilityScan,
    c: spec_fn(int) -> u8,
    first: u8,
    caps: Seq<u8>,
) -> (n: nat)
    requires
        is_chain(c, first, caps),
        scan.state == followed(first as u32),
    ensures
        scan_steps(scan, c, n) == (CapabilityScan {
            state: ScanState::VendorId,
            ..absorbed(scan, c, caps)
        }),
    decreases caps.len(),
{
    if caps.len() == 0 {
        0
    } else {
        let at = caps[0];
        let rest = caps.drop_first();
        let n = lemma_one_capability(scan, c, at);
        let mid = scan_steps(scan, c, n);
        let m = lemma_whole_list(mid, c, c(at + 1), rest);
        lemma_steps_add(scan, c, n, m);
        reveal_with_fuel(first_with_id, 2);
        assert(seq![at].drop_first() =~= Seq::<u8>::empty());
        assert(absorbed(mid, c, rest) == (CapabilityScan {
            state: mid.state,
            ..absorbed(scan, c, caps)
        }));
        n + m
    }
}

/// On a config space whose capability list ends, the scan ends, with the first MSI and the first
/// MSI-X capability of the list, and the vendor and class of the device.
pub proof fn law_scan_finds_the_first_capabilities(
    c: spec_fn(int) -> u8,
    caps: Seq<u8>,
    msi_socket: RawDescriptor,
    msix_socket: RawDescriptor,
)
    requires
        is_chain(c, c(0x34), caps),
    ensures
        exists|n: nat|
            {
                let end = #[trigger] scan_steps(
                    CapabilityScan::begun(msi_socket, msix_socket),
                    c,
                    n,
                );
                &&& end.state == ScanState::Done {
                    vendor_id: (c(0) + 0x100 * c(1)) as u16,
                    class_code: c(0x0B),
                }
                &&& end.msi_cap == (match first_with_id(c, caps, 0x05) {
                    Some(at) => Some(msi_at(c, at, msi_socket)),
                    None => None,
                })
                &&& end.msix_cap == (match first_with_id(c, caps, 0x11) {
                    Some(at) => Some(msix_at(c, at, msix_socket)),
                    None => None,
                })
            },
{
    let scan = CapabilityScan::begun(msi_socket, msix_socket);
    reveal_with_fuel(scan_steps, 3);
    let one = scan_steps(scan, c, 1);
    let n = lemma_whole_list(one, c, c(0x34), caps);
    lemma_steps_add(scan, c, 1, n);
    let listed = scan_steps(one, c, n);
    lemma_steps_add(scan, c, 1 + n, 2);
    let end = scan_steps(scan, c, 1 + n + 2);
    assert(end == scan_steps(listed, c, 2));
}

/// What is read of an MSI capability: its message control, in the third and the fourth byte, tells in
/// bit 7 and in bit 8 whether it has 64-bit addresses and a mask register.
pub proof fn law_msi_capability_is_read_from_its_bytes(
    c: spec_fn(int) -> u8,
    at: u8,
    socket: RawDescriptor,
)
    ensures
        ({
            let cap = msi_at(c, at, socket);
            &&& cap.offset == at
            &&& cap.vm_socket_irq == socket
            &&& cap.is_64bit <==> c(at + 2) / 0x80 % 2 == 1
            &&& cap.mask_cap <==> c(at + 3) % 2 == 1
        }),
{
}

/// What is read of an MSI-X capability: message control in the third and the fourth byte, and then the
/// registers that locate the table and the pending bit array, of four bytes each, the lowest first.
pub proof fn law_msix_capability_is_read_from_its_bytes(
    c: spec_fn(int) -> u8,
    at: u8,
    socket: RawDescriptor,
)
    ensures
        ({
            let cap = msix_at(c, at, socket);
            let announced = c(at + 2) + 0x100 * (c(at + 3) % 8) + 1;
            &&& cap.offset == at
            &&& cap.config == socket
            &&& cap.table_pci_bar == c(at + 4) % 8
            &&& cap.table_offset + cap.table_pci_bar == c(at + 4) + 0x100 * c(at + 5) + 0x1_0000 * c(
                at + 6,
            ) + 0x100_0000 * c(at + 7)
            &&& cap.pba_pci_bar == c(at + 8) % 8
            &&& cap.pba_offset + cap.pba_pci_bar == c(at + 8) + 0x100 * c(at + 9) + 0x1_0000 * c(
                at + 10,
            ) + 0x100_0000 * c(at + 11)
            &&& cap.table_size <= announced
            &&& cap.table_pci_bar != cap.pba_pci_bar || cap.pba_offset <= cap.table_offset
                ==> cap.table_size == announced
        }),
{
    let ctl = config_value(c, ConfigRegister { offset: (at + 2) as u32, width: 2 });
    let table = config_value(c, ConfigRegister { offset: (at + 4) as u32, width: 4 });
    let pba = config_value(c, ConfigRegister { offset: (at + 8) as u32, width: 4 });
    assert(ctl == c(at + 2) + 0x100 * c(at + 3));
    crate::msix::law_registers_locate_table_and_pba(ctl as u16, table, pba, at as u32, socket);
    crate::msix::law_vector_count_is_the_greatest_that_fits(ctl as u16, table, pba);
}

/// The first capability with an id is in the list, has the id, and none before it has; there is none
/// exactly if none in the list has the id.
pub proof fn law_first_capability_with_an_id(c: spec_fn(int) -> u8, caps: Seq<u8>, id: u8, j: int)
    ensures
        match first_with_id(c, caps, id) {
            Some(at) => c(at as int) == id && exists|k: int|
                0 <= k < caps.len() && #[trigger] caps[k] == at && (0 <= j < k ==> c(caps[j] as int)
                    != id),
            None => 0 <= j < caps.len() ==> c(caps[j] as int) != id,
        },
    decreases caps.len(),
{
    if caps.len() > 0 {
        let rest = caps.drop_first();
        if c(caps[0] as int) == id {
            assert(caps[0] == caps[0]);
        } else {
            law_first_capability_with_an_id(c, rest, id, j - 1);
            if let Some(at) = first_with_id(c, rest, id) {
                let k = choose|k: int|
                    0 <= k < rest.len() && #[trigger] rest[k] == at && (0 <= j - 1 < k ==> c(
                        rest[j - 1] as int,
                    ) != id);
                assert(caps[k + 1] == at);
            }
        }
    }
}

/// The list of capabilities is linked by the second byte of each: that of one is the offset of the
/// next, and that of the last is zero. An offset of zero starts no list.
pub proof fn law_capabilities_are_linked(c: spec_fn(int) -> u8, first: u8, caps: Seq<u8>, i: int)
    requires
        is_chain(c, first, caps),
    ensures
        caps.len() == 0 <==> first == 0,
        caps.len() > 0 ==> caps[0] == first && c(caps.last() + 1) == 0,
        0 <= i < caps.len() ==> caps[i] != 0,
        0 <= i < caps.len() - 1 ==> caps[i + 1] == c(caps[i] + 1),
    decreases caps.len(),
{
    if caps.len() > 0 {
        let rest = caps.drop_first();
        law_capabilities_are_linked(c, c(first + 1), rest, i - 1);
        if rest.len() == 0 {
            assert(caps.last() == first);
        } else {
            assert(caps.last() == rest.last());
            assert(caps[1] == rest[0]);
        }
    }
}

} // verus!
