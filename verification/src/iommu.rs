//! Maps guest memory for the DMA of passed-through devices, on behalf of a virtual IOMMU.
use vstd::prelude::*;

use crate::msi::RawDescriptor;

verus! {

/// Why an operation on the mappings failed.
#[derive(Debug)]
pub enum MemoryMapperError {
    /// The guest memory is not there, for the reason given.
    GetHostAddress(String),
    /// The range ends beyond the 64-bit address space.
    IntegerOverflow,
    /// The operation is not supported.
    Unimplemented,
    /// The VFIO container refused, for the reason given.
    Vfio(String),
}

/// The accesses that a mapping allows.
#[derive(Clone, Copy, PartialEq, Eq, Structural, Debug)]
pub enum Permission {
    Read,
    Write,
    RW,
}

impl Permission {
    /// Whether the device may write.
    pub fn allows_write(&self) -> (r: bool)
        ensures
            r == (*self != Permission::Read),
    {
        match *self {
            Permission::Read => false,
            Permission::Write | Permission::RW => true,
        }
    }
}

/// An address of guest memory.
#[derive(Clone, Copy, PartialEq, Eq, Structural, Debug)]
pub struct GuestAddress(pub u64);

/// A mapping of guest memory into the address space of a device.
#[derive(Clone, Copy, PartialEq, Eq, Structural, Debug)]
pub struct MappingInfo {
    /// The address that the device uses.
    pub iova: u64,
    /// The guest memory that it reaches.
    pub gpa: GuestAddress,
    pub size: u64,
    pub perm: Permission,
}

/// A request to the VFIO container to map memory.
#[derive(Clone, Copy, PartialEq, Eq, Structural, Debug)]
pub struct DmaMap {
    pub iova: u64,
    pub size: u64,
    /// The address of the memory in this process.
    pub user_addr: u64,
    pub write_en: bool,
}

/// The mappings of a VFIO container.
pub struct VfioWrapper {
    pub container: RawDescriptor,
}

impl VfioWrapper {
    /// The mappings of `container`.
    pub fn new(container: RawDescriptor) -> (w: Self)
        ensures
            w.container == container,
    {
        VfioWrapper { container }
    }

    /// The guest memory of which the address in this process is needed to add `map`, as start and
    /// size.
    pub fn guest_range(&self, map: MappingInfo) -> (range: (GuestAddress, usize))
        ensures
            range == (map.gpa, map.size as usize),
    {
        (map.gpa, map.size as usize)
    }

    /// Takes the address in this process of the guest memory of `map`, or why there is none, and
    /// gives the request to the container.
    pub fn add_map(&self, map: MappingInfo, host_addr: Result<u64, String>) -> (request: Result<
        DmaMap,
        MemoryMapperError,
    >)
        ensures
            request == (match host_addr {
                Ok(user_addr) => Ok(
                    DmaMap {
                        iova: map.iova,
                        size: map.size,
                        user_addr,
                        write_en: map.perm != Permission::Read,
                    },
                ),
                Err(reason) => Err(MemoryMapperError::GetHostAddress(reason)),
            }),
    {
        match host_addr {
            Ok(user_addr) => Ok(
                DmaMap {
                    iova: map.iova,
                    size: map.size,
                    user_addr,
                    write_en: map.perm.allows_write(),
                },
            ),
            Err(reason) => Err(MemoryMapperError::GetHostAddress(reason)),
        }
    }

    /// The range to unmap in the container, as start and size, unless it ends beyond the address
    /// space.
    pub fn remove_map(&self, iova_start: u64, size: u64) -> (range: Result<
        (u64, u64),
        MemoryMapperError,
    >)
        ensures
            range == (if iova_start + size <= u64::MAX {
                Ok((iova_start, size))
            } else {
                Err(MemoryMapperError::IntegerOverflow)
            }),
    {
        match iova_start.checked_add(size) {
            Some(_) => Ok((iova_start, size)),
            None => Err(MemoryMapperError::IntegerOverflow),
        }
    }

    /// Takes what the container answered to a request to map or to unmap.
    pub fn container_done(answer: Result<(), String>) -> (result: Result<(), MemoryMapperError>)
        ensures
            result == (match answer {
                Ok(_) => Ok(()),
                Err(reason) => Err(MemoryMapperError::Vfio(reason)),
            }),
    {
        match answer {
            Ok(_) => Ok(()),
            Err(reason) => Err(MemoryMapperError::Vfio(reason)),
        }
    }

    /// Takes the mask of page sizes that the container answered.
    pub fn get_mask(&self, answer: Result<u64, String>) -> (mask: Result<u64, MemoryMapperError>)
        ensures
            mask == (match answer {
                Ok(m) => Ok(m),
                Err(reason) => Err(MemoryMapperError::Vfio(reason)),
            }),
    {
        match answer {
            Ok(m) => Ok(m),
            Err(reason) => Err(MemoryMapperError::Vfio(reason)),
        }
    }

    /// Addresses are translated by the hardware, never here.
    pub fn translate(&self, iova: u64, size: u64) -> (result: Result<
        GuestAddress,
        MemoryMapperError,
    >)
        ensures
            result == Err::<GuestAddress, MemoryMapperError>(MemoryMapperError::Unimplemented),
    {
        Err(MemoryMapperError::Unimplemented)
    }

    /// The descriptors that are needed.
    pub fn as_raw_descriptors(&self) -> (rds: Vec<RawDescriptor>)
        ensures
            rds@ == seq![self.container],
    {
        let mut rds: Vec<RawDescriptor> = Vec::new();
        rds.push(self.container);
        rds
    }
}

} // verus!
