use vfio_pci::bar::{write_bar_register, PciBarConfiguration, PciBarPrefetchable, PciBarRegionType};
use vfio_pci::bar_allocation::{BarAllocation, BarProbe, MmioType, OpregionStep};
use vfio_pci::bar_mmap::RegisterMmapMemory;
use vfio_pci::capability_scan::{CapabilityScan, ScanState};
use vfio_pci::device::{
    AddressAllocation, BarTarget, CloseAction, DeviceData, PciAddress, VfioPciDevice,
};
use vfio_pci::error::PciDeviceError;
use vfio_pci::msi::{VfioMsiCap, VmIrqRequest};
use vfio_pci::msix::VfioMsixCap;
use vfio_pci::sparse_mmap::SparseMmapArea;

fn device(vendor_id: u16, hotplug: Option<u8>) -> VfioPciDevice {
    let mut scan = CapabilityScan::new(10, 11);
    scan.state = ScanState::Done { vendor_id, class_code: 0x03 };
    let mut dev = VfioPciDevice::new("0000:00:02.0".to_string(), hotplug, scan, 12, Some(13));
    dev.address_reserved(PciAddress { bus: 0, dev: 2, func: 0 }, true).unwrap();
    dev
}

fn area(offset: u64, size: u64) -> SparseMmapArea {
    SparseMmapArea { offset, size }
}

/// Runs the probing of BARs against a config space that holds `masks`.
fn probe(
    dev: &mut VfioPciDevice,
    masks: [u32; 7],
    addr: u64,
) -> (BarAllocation, Vec<(u32, u32)>, Vec<MmioType>) {
    let mask = |reg: u32| if reg == 0x30 { masks[6] } else { masks[(reg as usize - 0x10) / 4] };
    let mut a = dev.allocate_io_bars();
    let mut stored = Vec::new();
    let mut types = Vec::new();
    loop {
        if let Some((reg, value)) = a.at.next_write() {
            if !matches!(a.at, BarProbe::WriteLow { .. } | BarProbe::WriteUpper { .. }) {
                stored.push((reg, value));
            }
            dev.bar_register_written(&mut a);
        } else if let Some(reg) = a.at.next_read() {
            assert!(a.at.accepts(mask(reg)));
            dev.bar_register_read(&mut a, mask(reg));
        } else if let BarProbe::Allocate { i, low, .. } = a.at {
            types.push(VfioPciDevice::mmio_type(low));
            dev.bar_address_allocated(&mut a, Ok(addr + 0x1000_0000 * i as u64)).unwrap();
        } else {
            return (a, stored, types);
        }
    }
}

#[test]
fn bars_are_probed_and_placed() {
    let mut dev = device(0x10de, None);
    let masks = [0xff00_0000, 0xf000_000c, 0xffff_ffff, 0, 0xffff_ff81, 0, 0xfff8_0000];
    let (a, stored, types) = probe(&mut dev, masks, 0x5_8000_0000);
    assert!(a.at == BarProbe::Done);
    assert_eq!(
        a.ranges,
        vec![
            (0x5_8000_0000, 0x0100_0000),
            (0x5_9000_0000, 0x1000_0000),
            (0x5_e000_0000, 0x0008_0000),
        ]
    );
    assert_eq!(types, vec![MmioType::Low, MmioType::High, MmioType::Low]);
    assert_eq!(
        stored,
        vec![(0x10, 0x8000_0000), (0x14, 0x9000_000c), (0x18, 5), (0x30, 0xe000_0000)]
    );
    assert_eq!(dev.mmio_regions.len(), 3);
    assert_eq!(
        dev.mmio_regions[1],
        PciBarConfiguration {
            addr: 0x5_9000_0000,
            size: 0x1000_0000,
            bar_idx: 1,
            region_type: PciBarRegionType::Memory64BitRegion,
            prefetchable: PciBarPrefetchable::Prefetchable,
        }
    );
    assert_eq!(dev.io_regions.len(), 1);
    assert_eq!((dev.io_regions[0].bar_idx, dev.io_regions[0].size), (4, 0x80));
    assert!(dev.io_regions[0].is_io());
}

#[test]
fn hotplugged_regions_are_not_placed() {
    let mut dev = device(0x10de, Some(3));
    let (a, stored, _) = probe(&mut dev, [0xff00_0000, 0, 0, 0, 0, 0, 0], 0x8000_0000);
    assert!(a.ranges.is_empty());
    assert_eq!(stored, vec![(0x10, 0)]);
    assert_eq!((dev.mmio_regions[0].addr, dev.mmio_regions[0].size), (0, 0x0100_0000));
}

#[test]
fn size_that_does_not_fit_is_noticed() {
    assert!(!BarProbe::ReadLow { i: 0 }.accepts(0x1));
    assert!(BarProbe::ReadLow { i: 6 }.accepts(0x1));
    assert!(!BarProbe::ReadUpper { i: 0, low: 0xc }.accepts(0));
    assert!(BarProbe::ReadUpper { i: 0, low: 0xc }.accepts(0x8000_0000));
}

#[test]
fn failed_allocation_is_reported() {
    let mut dev = device(0x10de, None);
    let mut a = dev.allocate_io_bars();
    dev.bar_register_written(&mut a);
    dev.bar_register_read(&mut a, 0xfff0_0000);
    match dev.bar_address_allocated(&mut a, Err("out of space".to_string())) {
        Err(PciDeviceError::IoAllocationFailed(size, reason)) => {
            assert_eq!((size, reason.as_str()), (0x10_0000, "out of space"));
        }
        _ => panic!("the allocation failed"),
    }
    assert!(dev.mmio_regions.is_empty());
}

#[test]
fn memory_is_enabled_for_intel_graphics() {
    let mut dev = device(0x8086, None);
    let (mut a, _, _) = probe(&mut dev, [0; 7], 0);
    assert!(a.at == BarProbe::ReadCommand);
    dev.bar_command_read(&mut a, 0x05);
    assert!(a.at == BarProbe::StoreCommand { value: 0x07 });
    dev.bar_command_written(&mut a);
    assert!(a.at == BarProbe::Done);
    let mut b = BarAllocation { at: BarProbe::ReadCommand, ranges: Vec::new() };
    dev.bar_command_read(&mut b, 0x02);
    assert!(b.at == BarProbe::StoreCommand { value: 0x02 });
}

#[test]
fn opregion_is_read_only() {
    let other = device(0x10de, None);
    assert_eq!(other.allocate_device_bars(), OpregionStep::Done { allocated: None });
    let mut dev = device(0x8086, None);
    assert_eq!(
        dev.allocate_device_bars(),
        OpregionStep::FindRegion { type_: 0x8000_8086, subtype: 1 }
    );
    assert_eq!(dev.opregion_found(None), OpregionStep::Done { allocated: None });
    assert_eq!(
        dev.opregion_found(Some((9, 0x2000))),
        OpregionStep::Allocate {
            address: PciAddress { bus: 0, dev: 2, func: 0 },
            bar: 36,
            index: 9,
            size: 0x2000,
        }
    );
    assert!(matches!(
        dev.opregion_allocated(9, 0x2000, Err("full".to_string())),
        Err(PciDeviceError::IoAllocationFailed(0x2000, _))
    ));
    assert_eq!(
        dev.opregion_allocated(9, 0x2000, Ok(0xe000_0000)).unwrap(),
        OpregionStep::WriteRegister { value: 0xe000_0000, range: (0xe000_0000, 0x2000) }
    );
    assert_eq!(
        VfioPciDevice::opregion_register_written((0xe000_0000, 0x2000)),
        OpregionStep::Done { allocated: Some((0xe000_0000, 0x2000)) }
    );
    assert_eq!(dev.device_data, Some(DeviceData::IntelGfxData { opregion_index: 9 }));
    assert_eq!(dev.read_bar(0xe000_0010), BarTarget::Region { index: 9, offset: 0x10 });
    assert_eq!(dev.write_bar(0xe000_0010), BarTarget::Nothing);
}

#[test]
fn bar_accesses_are_directed() {
    let mut dev = device(0x10de, None);
    dev.msix_cap = Some(VfioMsixCap::new(3, 0x2000, 0x3000, 0x70, 11));
    dev.mmio_regions.push(
        PciBarConfiguration::new(
            0,
            0x10000,
            PciBarRegionType::Memory32BitRegion,
            PciBarPrefetchable::NotPrefetchable,
        )
        .set_address(0x1_0000_0000),
    );
    assert_eq!(dev.read_bar(0xffff_ffff), BarTarget::Nothing);
    assert_eq!(dev.read_bar(0x1_0001_0000), BarTarget::Nothing);
    assert_eq!(dev.read_bar(0x1_0000_1fff), BarTarget::Region { index: 0, offset: 0x1fff });
    assert_eq!(dev.read_bar(0x1_0000_2010), BarTarget::MsixTable { offset: 0x10 });
    assert_eq!(dev.write_bar(0x1_0000_203f), BarTarget::MsixTable { offset: 0x3f });
    assert_eq!(dev.write_bar(0x1_0000_2040), BarTarget::Region { index: 0, offset: 0x2040 });
    assert_eq!(dev.write_bar(0x1_0000_3004), BarTarget::MsixPba { offset: 4 });
    assert_eq!(dev.find_region(0x1_0000_0000), Some(dev.mmio_regions[0]));
}

#[test]
fn bar_registers_move_regions() {
    let bar = |idx, region_type, addr| {
        PciBarConfiguration::new(idx, 0x1000, region_type, PciBarPrefetchable::NotPrefetchable)
            .set_address(addr)
    };
    let mut regions = vec![
        bar(0, PciBarRegionType::Memory64BitRegion, 0x1_0000_2000),
        bar(2, PciBarRegionType::Memory32BitRegion, 0x4000),
    ];
    assert!(!write_bar_register(&mut regions, 0, 0x200c));
    assert!(write_bar_register(&mut regions, 0, 0x300c));
    assert_eq!(regions[0].addr, 0x1_0000_3000);
    assert!(write_bar_register(&mut regions, 1, 7));
    assert_eq!(regions[0].addr, 0x7_0000_3000);
    assert!(!write_bar_register(&mut regions, 1, 7));
    assert!(write_bar_register(&mut regions, 2, 0xffff_ffff));
    assert_eq!(regions[1].addr, 0xffff_fff0);
    assert!(!write_bar_register(&mut regions, 3, 1));
    assert!(regions[0].is_64bit_memory() && regions[1].is_memory());
}

#[test]
fn bar_is_visible_while_memory_is_enabled() {
    let mut dev = device(0x10de, None);
    probe(&mut dev, [0xff00_0000, 0xffff_ff81, 0, 0, 0, 0, 0], 0x8000_0000);
    assert_eq!(dev.get_bar_configuration(0, 0x2), Some(dev.mmio_regions[0]));
    assert_eq!(dev.get_bar_configuration(0, 0x1), None);
    assert_eq!(dev.find_bar(1), Some(dev.io_regions[0]));
    assert_eq!(dev.get_bar_configuration(1, 0x3), None);
    assert_eq!(dev.get_bar_configuration(5, 0x3), None);
}

#[test]
fn register_pages_are_not_mapped() {
    let mut dev = device(0x10de, None);
    // Table at 0x2010 and pending bits at 0x4008, both in BAR 0.
    let cap = VfioMsixCap::new(3, 0x2010, 0x4008, 0x70, 11);
    dev.msix_cap = Some(cap);
    let areas = vec![area(0, 0x8000)];
    assert!(cap.areas_fit(0, &areas, 0x1000));
    let mmaps = dev.add_bar_mmap_msix(0, areas.clone(), 0x1000);
    assert_eq!(mmaps, vec![area(0, 0x2000), area(0x3000, 0x1000), area(0x5000, 0x3000)]);
    // Another BAR is mapped as it is.
    assert_eq!(dev.add_bar_mmap_msix(1, areas.clone(), 0x1000), areas);
    // An area that is not valid has nothing mapped.
    assert!(dev.add_bar_mmap_msix(0, vec![area(0, 0x1000), area(0, 0)], 0x1000).is_empty());
    // Addresses that do not fit in 64 bits are noticed.
    assert!(!cap.areas_fit(0, &vec![area(1, u64::MAX)], 0x1000));
}

#[test]
fn registers_that_begin_before_an_area_are_not_mapped() {
    let mut dev = device(0x10de, None);
    // A table of 256 vectors at 0x1800..0x2800, pending bits at 0x8000.
    dev.msix_cap = Some(VfioMsixCap::new(255, 0x1800, 0x8000, 0x70, 11));
    assert!(dev.add_bar_mmap_msix(0, vec![area(0x2000, 0x1000)], 0x1000).is_empty());
    assert_eq!(
        dev.add_bar_mmap_msix(0, vec![area(0x2000, 0x2000)], 0x1000),
        vec![area(0x3000, 0x1000)]
    );
    assert_eq!(
        dev.add_bar_mmap_msix(0, vec![area(0x2800, 0x800)], 0x1000),
        vec![area(0x2800, 0x800)]
    );
    // An area up to the very end of the address space.
    let top = vec![area(0x2000, u64::MAX - 0x1fff)];
    assert!(!dev.msix_cap.unwrap().areas_fit(0, &top, 0x1000));
    let mut early = dev.msix_cap.unwrap();
    early.pba_pci_bar = 1;
    assert!(early.areas_fit(0, &top, 0x1000));
    dev.msix_cap = Some(early);
    assert_eq!(
        dev.add_bar_mmap_msix(0, top, 0x1000),
        vec![area(0x3000, u64::MAX - 0x2fff)]
    );
}

#[test]
fn empty_table_inside_a_page_takes_that_page() {
    let mut dev = device(0x10de, None);
    let cap = VfioMsixCap::new(0, 0x2008, 0x2010, 0x70, 11);
    assert_eq!((cap.table_size, cap.table_size_bytes, cap.pba_size_bytes), (0, 0, 0));
    dev.msix_cap = Some(cap);
    assert_eq!(
        dev.add_bar_mmap_msix(0, vec![area(0, 0x4000)], 0x1000),
        vec![area(0, 0x2000), area(0x3000, 0x1000)]
    );
    // It reaches into no area that starts behind it, and takes nothing where a page starts.
    assert_eq!(
        dev.add_bar_mmap_msix(0, vec![area(0x2800, 0x800)], 0x1000),
        vec![area(0x2800, 0x800)]
    );
    dev.msix_cap = Some(VfioMsixCap { table_offset: 0x2000, pba_offset: 0x3000, ..cap });
    assert_eq!(dev.add_bar_mmap_msix(0, vec![area(0, 0x4000)], 0x1000), vec![area(0, 0x4000)]);
}

#[test]
fn region_that_ends_beyond_the_address_space_is_noticed() {
    let mut dev = device(0x10de, None);
    let region = PciBarConfiguration::new(
        0,
        0x1000,
        PciBarRegionType::Memory64BitRegion,
        PciBarPrefetchable::NotPrefetchable,
    );
    dev.mmio_regions.push(region.set_address(0xffff_ffff_ffff_f000));
    assert!(dev.region_ends_fit(0x1000));
    assert!(!dev.region_ends_fit(0xffff_ffff_ffff_f000));
    dev.mmio_regions.insert(0, region.set_address(0xffff_ffff_ffff_e000));
    assert!(dev.region_ends_fit(0xffff_ffff_ffff_efff));
}

#[test]
fn area_by_area_until_one_fails() {
    let mut dev = device(0x10de, None);
    assert!(dev.add_bar_mmap(0, 0x8000_0000, 3, vec![area(0, 1)], 0x1000).areas.is_empty());
    let areas = vec![area(0, 0x1000), area(0x2000, 0x3000), area(0x6000, 0x1000)];
    let mut m = dev.add_bar_mmap(0, 0x8000_0000, 4, areas, 0x1000);
    assert_eq!(
        m.next_request(0x10_0000),
        Some(RegisterMmapMemory {
            size: 0x1000,
            offset: 0x10_0000,
            gpa: 0x8000_0000,
            read_only: false,
        })
    );
    m.registered(Some(4));
    assert_eq!(
        m.next_request(0x10_0000),
        Some(RegisterMmapMemory {
            size: 0x3000,
            offset: 0x10_2000,
            gpa: 0x8000_2000,
            read_only: false,
        })
    );
    m.registered(None);
    assert_eq!(m.next_request(0x10_0000), None);
    assert_eq!(m.slots, vec![4]);
    dev.bars_mapped(m.slots);
    assert!(!dev.remap);
    let (old, bars) = dev.enable_bars_mmap();
    assert_eq!((old, bars), (vec![4], vec![]));
}

#[test]
fn only_placed_bars_are_mapped() {
    let mut dev = device(0x10de, None);
    probe(&mut dev, [0xff00_0000, 0xfff0_0000, 0, 0, 0, 0, 0], 0x8000_0000);
    dev.mmio_regions[1].addr = 0;
    let (old, bars) = dev.enable_bars_mmap();
    assert_eq!((old, bars), (vec![], vec![(0, 0x8000_0000)]));
}

#[test]
fn address_is_reserved_once() {
    let scan = || {
        let mut scan = CapabilityScan::new(10, 11);
        scan.state = ScanState::Done { vendor_id: 1, class_code: 2 };
        scan
    };
    let parsed = PciAddress { bus: 1, dev: 2, func: 3 };
    let mut dev = VfioPciDevice::new("0000:01:02.3".to_string(), None, scan(), 12, None);
    assert!(matches!(dev.allocate_address(parsed), AddressAllocation::Reserve(a) if a == parsed));
    assert!(matches!(
        dev.address_reserved(parsed, false),
        Err(PciDeviceError::PciAllocationFailed)
    ));
    assert_eq!(dev.address_reserved(parsed, true).unwrap(), parsed);
    let other = PciAddress { bus: 9, dev: 9, func: 0 };
    assert!(matches!(dev.allocate_address(other), AddressAllocation::Allocated(a) if a == parsed));
    let hot = VfioPciDevice::new("0000:01:02.3".to_string(), Some(5), scan(), 12, None);
    assert!(matches!(
        hot.allocate_address(parsed),
        AddressAllocation::Reserve(PciAddress { bus: 5, dev: 0, func: 0 })
    ));
}

#[test]
fn descriptors_are_kept() {
    let mut dev = device(0x10de, None);
    assert_eq!(dev.keep_rds(vec![1, 2]), vec![1, 2, 12]);
    dev.interrupt_evt = Some(30);
    dev.interrupt_resample_evt = Some(31);
    dev.msi_cap = Some(VfioMsiCap::new(0, 0x50, 10));
    dev.msix_cap = Some(VfioMsixCap::new(3, 0x2000, 0x3000, 0x70, 11));
    assert_eq!(dev.keep_rds(vec![]), vec![30, 31, 12, 10, 11]);
    assert_eq!(dev.debug_label(), "vfio 0000:00:02.0 device");
    assert!(dev.ioevents().is_empty());
    assert!(dev.register_device_capabilities().is_ok());
}

#[test]
fn closing_gives_everything_back_once() {
    let mut dev = device(0x10de, None);
    let mut msi = VfioMsiCap::new(0, 0x50, 10);
    msi.gsi = Some(5);
    msi.irqfd = Some(20);
    dev.msi_cap = Some(msi);
    dev.msix_cap = Some(VfioMsixCap::new(3, 0x2000, 0x3000, 0x70, 11));
    dev.bars_mapped(vec![7, 8]);
    assert_eq!(
        dev.destroy_device(),
        vec![
            CloseAction::VmIrq(VmIrqRequest::ReleaseOneIrq { gsi: 5, irqfd: 20 }),
            CloseAction::DestroyMsix,
            CloseAction::UnregisterMemory(7),
            CloseAction::UnregisterMemory(8),
            CloseAction::CloseDevice,
        ]
    );
    assert_eq!(dev.close(), vec![CloseAction::DestroyMsix, CloseAction::CloseDevice]);
}
