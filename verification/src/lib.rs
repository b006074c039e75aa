//! The device model of a host PCI device that is passed through to a guest by VFIO, and pieces of
//! the virtual devices around it.
//!
//! Everything here decides and computes. What has to be asked of the host is returned as a step to
//! take, and the reply is handed back.
pub mod assign_irq;
pub mod bar;
pub mod bar_allocation;
pub mod bar_mmap;
pub mod bytes;
pub mod capability_scan;
pub mod config_access;
pub mod device;
pub mod error;
pub mod iommu;
pub mod irq;
pub mod msi;
pub mod msix;
pub mod msix_allocator;
pub mod renderer;
pub mod sparse_mmap;
pub mod text;
pub mod worker;
