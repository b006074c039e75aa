//! The MSI-X capability of a passed-through device.
//!
//! The capability says in which BARs the MSI-X table and the pending bit array (PBA) lie. Both are
//! emulated, so guest accesses to them are told apart from accesses to the rest of the BAR.
use vstd::prelude::*;

use crate::msi::{RawDescriptor, VfioMsiChange};

verus! {

/// Offset of the message control register in the capability.
pub const PCI_MSIX_FLAGS: u32 = 0x02;

/// Table size field of message control: the number of vectors less one.
pub const PCI_MSIX_FLAGS_QSIZE: u16 = 0x07FF;

/// Offset of the register that locates the table.
pub const PCI_MSIX_TABLE: u32 = 0x04;

/// BAR index field of the table register.
pub const PCI_MSIX_TABLE_BIR: u32 = 0x07;

/// Offset field of the table register.
pub const PCI_MSIX_TABLE_OFFSET: u32 = 0xFFFFFFF8;

/// Offset of the register that locates the pending bit array.
pub const PCI_MSIX_PBA: u32 = 0x08;

/// BAR index field of the pending bit array register.
pub const PCI_MSIX_PBA_BIR: u32 = 0x07;

/// Offset field of the pending bit array register.
pub const PCI_MSIX_PBA_OFFSET: u32 = 0xFFFFFFF8;

/// Bytes in a table entry.
pub const MSIX_TABLE_ENTRIES_MODULO: u64 = 16;

/// Bytes in an entry of the pending bit array.
pub const MSIX_PBA_ENTRIES_MODULO: u64 = 8;

/// Vectors that an entry of the pending bit array has a bit for.
pub const BITS_PER_PBA_ENTRY: u64 = 64;

/// The two state bits of the emulated message control register.
#[derive(Clone, Copy, PartialEq, Eq, Structural, Debug)]
pub struct MsixStatus {
    pub enabled: bool,
    pub masked: bool,
}

/// The MSI-X capability.
#[derive(Clone, Copy, PartialEq, Eq, Structural, Debug)]
pub struct VfioMsixCap {
    /// Descriptor of the socket through which the emulated table reaches the VM.
    pub config: RawDescriptor,
    /// Where the capability starts in config space.
    pub offset: u32,
    /// Number of vectors.
    pub table_size: u16,
    pub table_pci_bar: u32,
    pub table_offset: u64,
    pub table_size_bytes: u64,
    pub pba_pci_bar: u32,
    pub pba_offset: u64,
    pub pba_size_bytes: u64,
}

/// The number of vectors of a device whose message control register reads `msix_ctl`: as many as
/// the register says, but not so many that the table runs into a pending bit array that follows
/// it in the same BAR.
pub open spec fn vector_count(msix_ctl: u16, table: u32, pba: u32) -> int {
    let announced = msix_ctl % 2048 + 1;
    let table_offset = table - table % 8;
    let pba_offset = pba - pba % 8;
    if table % 8 == pba % 8 && table_offset < pba_offset < table_offset + announced * 16 {
        (pba_offset - table_offset) / 16
    } else {
        announced
    }
}

/// What a switch of message control from `before` to `after` means for the interrupt that the
/// device delivers.
pub open spec fn msix_change(before: MsixStatus, after: MsixStatus) -> Option<VfioMsiChange> {
    if after.enabled && (!before.enabled || (before.masked && !after.masked)) {
        Some(VfioMsiChange::Enable)
    } else if before.enabled && (!after.enabled || (!before.masked && after.masked)) {
        Some(VfioMsiChange::Disable)
    } else {
        None
    }
}

impl VfioMsixCap {
    /// The capability that starts at `start` in config space and whose message control, table and
    /// pending bit array registers read `msix_ctl`, `table` and `pba`.
    pub open spec fn described(
        msix_ctl: u16,
        table: u32,
        pba: u32,
        start: u32,
        vm_socket_irq: RawDescriptor,
    ) -> VfioMsixCap {
        let vectors = vector_count(msix_ctl, table, pba);
        VfioMsixCap {
            config: vm_socket_irq,
            offset: start,
            table_size: vectors as u16,
            table_pci_bar: table % 8,
            table_offset: (table - table % 8) as u64,
            table_size_bytes: (16 * vectors) as u64,
            pba_pci_bar: pba % 8,
            pba_offset: (pba - pba % 8) as u64,
            pba_size_bytes: (8 * ((vectors + 63) / 64)) as u64,
        }
    }

    /// The sizes agree with the number of vectors, and every end can be computed without overflow.
    pub open spec fn wf(&self) -> bool {
        &&& self.offset <= u32::MAX - PCI_MSIX_PBA
        &&& self.table_size <= 2048
        &&& self.table_offset <= u32::MAX
        &&& self.pba_offset <= u32::MAX
        &&& self.table_size_bytes == 16 * self.table_size
        &&& self.pba_size_bytes == 8 * ((self.table_size + 63) / 64)
    }

    /// The capability that starts at `msix_cap_start` in config space and whose message control,
    /// table and pending bit array registers read `msix_ctl`, `table` and `pba`.
    pub fn new(
        msix_ctl: u16,
        table: u32,
        pba: u32,
        msix_cap_start: u32,
        vm_socket_irq: RawDescriptor,
    ) -> (cap: Self)
        requires
            msix_cap_start <= u32::MAX - PCI_MSIX_PBA,
        ensures
            cap.wf(),
            cap == Self::described(msix_ctl, table, pba, msix_cap_start, vm_socket_irq),
            cap.table_size == vector_count(msix_ctl, table, pba),
    {
        assert(table & 0x07 == table % 8) by (bit_vector);
        assert(table & 0xFFFFFFF8 == table - table % 8) by (bit_vector);
        assert(pba & 0x07 == pba % 8) by (bit_vector);
        assert(pba & 0xFFFFFFF8 == pba - pba % 8) by (bit_vector);
        assert(msix_ctl & 0x07FF == msix_ctl % 2048) by (bit_vector);
        let table_pci_bar: u32 = table & PCI_MSIX_TABLE_BIR;
        let table_offset: u64 = (table & PCI_MSIX_TABLE_OFFSET) as u64;
        let pba_pci_bar: u32 = pba & PCI_MSIX_PBA_BIR;
        let pba_offset: u64 = (pba & PCI_MSIX_PBA_OFFSET) as u64;

        let mut table_size: u64 = (msix_ctl & PCI_MSIX_FLAGS_QSIZE) as u64 + 1;
        if table_pci_bar == pba_pci_bar && pba_offset > table_offset && (table_offset + table_size
            * MSIX_TABLE_ENTRIES_MODULO) > pba_offset {
            table_size = (pba_offset - table_offset) / MSIX_TABLE_ENTRIES_MODULO;
        }
        let table_size_bytes: u64 = table_size * MSIX_TABLE_ENTRIES_MODULO;
        let pba_size_bytes: u64 = ((table_size + BITS_PER_PBA_ENTRY - 1) / BITS_PER_PBA_ENTRY)
            * MSIX_PBA_ENTRIES_MODULO;

        VfioMsixCap {
            config: vm_socket_irq,
            offset: msix_cap_start,
            table_size: table_size as u16,
            table_pci_bar,
            table_offset,
            table_size_bytes,
            pba_pci_bar,
            pba_offset,
            pba_size_bytes,
        }
    }

    /// Whether `offset..offset + size` in config space holds part of the message control register.
    ///
    /// It is the only writable register of the capability, and the only one that is emulated.
    pub open spec fn control_touched(&self, offset: u32, size: u32) -> bool {
        offset < self.offset + 4 && offset + size > self.offset + 2
    }

    /// Whether `offset..offset + size` in config space holds part of the message control register.
    pub fn is_msix_control_reg(&self, offset: u32, size: u32) -> (touched: bool)
        requires
            self.wf(),
            offset < self.offset + 4 ==> offset + size <= u32::MAX,
        ensures
            touched == self.control_touched(offset, size),
    {
        let control_start: u32 = self.offset + PCI_MSIX_FLAGS;
        let control_end: u32 = control_start + 2;

        offset < control_end && offset + size > control_start
    }

    /// What a write to message control that took the state from `old_status` to `new_status` means
    /// for the interrupt that the device delivers.
    pub fn write_msix_control(old_status: MsixStatus, new_status: MsixStatus) -> (change: Option<
        VfioMsiChange,
    >)
        ensures
            change == msix_change(old_status, new_status),
            change is None <==> old_status.enabled == new_status.enabled && (new_status.enabled
                ==> old_status.masked == new_status.masked),
    {
        let old_enabled = old_status.enabled;
        let old_masked = old_status.masked;
        let new_enabled = new_status.enabled;
        let new_masked = new_status.masked;
        if (!old_enabled && new_enabled) || (new_enabled && old_masked && !new_masked) {
            Some(VfioMsiChange::Enable)
        } else if (old_enabled && !new_enabled) || (new_enabled && !old_masked && new_masked) {
            Some(VfioMsiChange::Disable)
        } else {
            None
        }
    }

    /// Whether `offset` in the BAR `bar_index` lies in the MSI-X table.
    pub open spec fn in_table(&self, bar_index: u32, offset: int) -> bool {
        bar_index == self.table_pci_bar && self.table_offset <= offset < self.table_offset
            + self.table_size_bytes
    }

    /// Whether `offset` in the BAR `bar_index` lies in the pending bit array.
    pub open spec fn in_pba(&self, bar_index: u32, offset: int) -> bool {
        bar_index == self.pba_pci_bar && self.pba_offset <= offset < self.pba_offset
            + self.pba_size_bytes
    }

    /// Whether `offset` in the BAR `bar_index` lies in the MSI-X table.
    pub fn is_msix_table(&self, bar_index: u32, offset: u64) -> (r: bool)
        requires
            self.wf(),
        ensures
            r == self.in_table(bar_index, offset as int),
    {
        bar_index == self.table_pci_bar && offset >= self.table_offset && offset
            < self.table_offset + self.table_size_bytes
    }

    /// Where the table lies in the BAR `bar_index`, and its size, if it is in that BAR.
    pub fn get_msix_table(&self, bar_index: u32) -> (r: Option<(u64, u64)>)
        ensures
            r == (if bar_index == self.table_pci_bar {
                Some((self.table_offset, self.table_size_bytes))
            } else {
                None
            }),
    {
        if bar_index == self.table_pci_bar {
            Some((self.table_offset, self.table_size_bytes))
        } else {
            None
        }
    }

    /// Whether `offset` in the BAR `bar_index` lies in the pending bit array.
    pub fn is_msix_pba(&self, bar_index: u32, offset: u64) -> (r: bool)
        requires
            self.wf(),
        ensures
            r == self.in_pba(bar_index, offset as int),
    {
        bar_index == self.pba_pci_bar && offset >= self.pba_offset && offset < self.pba_offset
            + self.pba_size_bytes
    }

    /// Where the pending bit array lies in the BAR `bar_index`, and its size, if it is in that BAR.
    pub fn get_msix_pba(&self, bar_index: u32) -> (r: Option<(u64, u64)>)
        ensures
            r == (if bar_index == self.pba_pci_bar {
                Some((self.pba_offset, self.pba_size_bytes))
            } else {
                None
            }),
    {
        if bar_index == self.pba_pci_bar {
            Some((self.pba_offset, self.pba_size_bytes))
        } else {
            None
        }
    }

    /// The descriptors of the vectors' interrupt events, if every vector has one.
    ///
    /// `irqfds` holds, for each vector of the emulated table, its event if it has one.
    pub fn get_msix_irqfds(&self, irqfds: &[Option<RawDescriptor>]) -> (r: Option<
        Vec<RawDescriptor>,
    >)
        requires
            irqfds@.len() == self.table_size,
        ensures
            r is Some <==> forall|i: int| 0 <= i < irqfds@.len() ==> #[trigger] irqfds@[i] is Some,
            r matches Some(fds) ==> fds@ =~= irqfds@.map_values(|e: Option<RawDescriptor>| e->0),
    {
        let mut fds: Vec<RawDescriptor> = Vec::new();
        for i in 0..self.table_size
            invariant
                irqfds@.len() == self.table_size,
                fds@.len() == i,
                forall|k: int| 0 <= k < i ==> #[trigger] irqfds@[k] == Some(fds@[k]),
        {
            if let Some(fd) = irqfds[i as usize] {
                fds.push(fd);
            } else {
                assert(irqfds@[i as int] is None);
                return None;
            }
        }
        Some(fds)
    }
}

/// A table that shares its BAR with a pending bit array placed after it ends before that array.
pub proof fn law_table_ends_before_pba(msix_ctl: u16, table: u32, pba: u32)
    requires
        table % 8 == pba % 8,
        table < pba,
    ensures
        (table - table % 8) + 16 * vector_count(msix_ctl, table, pba) <= pba - pba % 8,
{
}

/// The pending bit array has a bit for every vector, and no entry without a vector's bit.
pub proof fn law_pba_has_a_bit_per_vector(cap: VfioMsixCap)
    requires
        cap.wf(),
    ensures
        8 * cap.pba_size_bytes >= cap.table_size,
        8 * cap.pba_size_bytes < cap.table_size + 64,
{
}

/// A device has as many vectors as message control announces (its lowest eleven bits, and one
/// more), or, where the table would run into a pending bit array that follows it in the same BAR, as
/// many as fit before that: the number fits, and the next one would not.
pub proof fn law_vector_count_is_the_greatest_that_fits(msix_ctl: u16, table: u32, pba: u32)
    ensures
        ({
            let n = vector_count(msix_ctl, table, pba);
            let announced = msix_ctl % 2048 + 1;
            let table_start = 8 * (table / 8);
            let pba_start = 8 * (pba / 8);
            let followed = table % 8 == pba % 8 && table_start < pba_start;
            &&& 0 <= n <= announced
            &&& followed ==> table_start + 16 * n <= pba_start
            &&& n < announced ==> followed && table_start + 16 * (n + 1) > pba_start
        }),
{
}

/// Where the registers of a capability say that the table and the pending bit array are: the lowest
/// three bits are the BAR, the others the offset. The table has 16 bytes for each vector, and the
/// array whole entries of eight bytes with a bit for each vector.
pub proof fn law_registers_locate_table_and_pba(
    msix_ctl: u16,
    table: u32,
    pba: u32,
    start: u32,
    socket: RawDescriptor,
)
    ensures
        ({
            let cap = VfioMsixCap::described(msix_ctl, table, pba, start, socket);
            let n = vector_count(msix_ctl, table, pba);
            &&& cap.config == socket
            &&& cap.offset == start
            &&& cap.table_size == n
            &&& cap.table_pci_bar == table % 8
            &&& cap.table_offset == 8 * (table / 8)
            &&& cap.table_size_bytes == 16 * n
            &&& cap.pba_pci_bar == pba % 8
            &&& cap.pba_offset == 8 * (pba / 8)
            &&& cap.pba_size_bytes % 8 == 0
            &&& n <= 8 * cap.pba_size_bytes < n + 64
        }),
{
    law_vector_count_is_the_greatest_that_fits(msix_ctl, table, pba);
}

/// An address in a BAR is one of the table's exactly if it is one of the 16 bytes of a vector, and
/// one of the pending bit array's exactly if it is the byte with the bits of eight vectors, of which
/// the last entry may have too many.
pub proof fn law_table_bytes_belong_to_vectors(cap: VfioMsixCap, bar_index: u32, offset: int)
    requires
        cap.wf(),
    ensures
        cap.in_table(bar_index, offset) <==> bar_index == cap.table_pci_bar && 0 <= offset
            - cap.table_offset && (offset - cap.table_offset) / 16 < cap.table_size,
        cap.in_pba(bar_index, offset) <==> bar_index == cap.pba_pci_bar && 0 <= offset
            - cap.pba_offset && 64 * ((offset - cap.pba_offset) / 8) < cap.table_size,
{
}

/// What message control means for the interrupt. Switched on, it is enabled, and switched off, it is
/// disabled, whatever the mask bit does. While it stays on, unmasking enables it, masking disables
/// it, and nothing else changes it. While it stays off, nothing changes it.
pub proof fn law_status_decides_the_change(before: MsixStatus, after: MsixStatus)
    ensures
        !before.enabled && after.enabled ==> msix_change(before, after) == Some(
            VfioMsiChange::Enable,
        ),
        before.enabled && !after.enabled ==> msix_change(before, after) == Some(
            VfioMsiChange::Disable,
        ),
        before.enabled && after.enabled && before.masked && !after.masked ==> msix_change(
            before,
            after,
        ) == Some(VfioMsiChange::Enable),
        before.enabled && after.enabled && !before.masked && after.masked ==> msix_change(
            before,
            after,
        ) == Some(VfioMsiChange::Disable),
        before.enabled && after.enabled && before.masked == after.masked ==> msix_change(
            before,
            after,
        ) is None,
        !before.enabled && !after.enabled ==> msix_change(before, after) is None,
{
}

/// An access touches message control exactly if it has a byte in common with it: those at 2 and 3
/// from the start of the capability.
pub proof fn law_control_is_touched_by_its_bytes(cap: VfioMsixCap, offset: u32, size: u32)
    requires
        size > 0,
    ensures
        cap.control_touched(offset, size) <==> exists|x: int|
            #![trigger x - offset]
            offset <= x < offset + size && (x == cap.offset + 2 || x == cap.offset + 3),
{
    if cap.control_touched(offset, size) {
        let x = if offset <= cap.offset + 2 {
            cap.offset + 2
        } else {
            cap.offset + 3
        };
        assert(offset <= x < offset + size && x - offset >= 0);
    }
}

} // verus!
