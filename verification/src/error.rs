//! Errors that the device operations report.
use vstd::prelude::*;

verus! {

/// Why an operation of a PCI device failed.
#[derive(Debug)]
pub enum PciDeviceError {
    /// No address on a PCI bus could be reserved for the device.
    PciAllocationFailed,
    /// The address space allocator refused a range of this many bytes, for the reason given.
    IoAllocationFailed(u64, String),
    /// The range to be managed ends beyond the 64-bit address space.
    MsixAllocatorOverflow { base: u64, size: u64 },
    /// The requested range ends beyond the 64-bit address space.
    MsixAllocatorOutOfSpace,
    /// A range of zero bytes was given.
    MsixAllocatorSizeZero,
}

} // verus!
