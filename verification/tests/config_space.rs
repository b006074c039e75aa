use vfio_pci::bar::{PciBarConfiguration, PciBarPrefetchable, PciBarRegionType};
use vfio_pci::capability_scan::{CapabilityScan, ScanState};
use vfio_pci::config_access::{config_start, ConfigRead, ConfigReply, ConfigWrite};
use vfio_pci::device::{VfioIrqType, VfioPciDevice};
use vfio_pci::iommu::{GuestAddress, MappingInfo, MemoryMapperError, Permission, VfioWrapper};
use vfio_pci::irq::IrqStep;
use vfio_pci::msi::{MsiWrite, VmIrqRequest};
use vfio_pci::msix::MsixStatus;
use vfio_pci::text::{irq_file, parse_gsi, push_path};
use vfio_pci::worker::{VfioPciWorker, WorkerEvent, WorkerStart, WorkerStep, WorkerToken};

/// A config space with an MSI capability at 0x50 and MSI-X capabilities at 0x70 and 0x90.
fn config_space(vendor_id: u16) -> Vec<u8> {
    let mut c = vec![0u8; 256];
    c[0..2].copy_from_slice(&vendor_id.to_le_bytes());
    c[0x0b] = 0x03;
    c[0x34] = 0x40;
    c[0x40..0x42].copy_from_slice(&[0x01, 0x50]);
    c[0x50..0x54].copy_from_slice(&[0x05, 0x70, 0x80, 0x00]);
    c[0x70..0x72].copy_from_slice(&[0x11, 0x90]);
    c[0x72..0x74].copy_from_slice(&3u16.to_le_bytes());
    c[0x74..0x78].copy_from_slice(&0x2000u32.to_le_bytes());
    c[0x78..0x7c].copy_from_slice(&0x3000u32.to_le_bytes());
    c[0x90..0x92].copy_from_slice(&[0x11, 0x00]);
    c
}

fn scan(config: &[u8]) -> CapabilityScan {
    let mut scan = CapabilityScan::new(10, 11);
    while let Some(register) = scan.next_register() {
        let mut value = 0u32;
        for k in (0..register.width as usize).rev() {
            value = value << 8 | config[register.offset as usize + k] as u32;
        }
        scan.register_read(value);
    }
    scan
}

fn device(vm_socket: Option<i32>) -> VfioPciDevice {
    let scan = scan(&config_space(0x10de));
    VfioPciDevice::new("0000:01:00.0".to_string(), None, scan, 12, vm_socket)
}

#[test]
fn first_capabilities_are_found() {
    let scan = scan(&config_space(0x8086));
    assert_eq!(scan.state, ScanState::Done { vendor_id: 0x8086, class_code: 3 });
    let msi = scan.msi_cap.unwrap();
    assert_eq!((msi.offset, msi.is_64bit, msi.mask_cap, msi.vm_socket_irq), (0x50, true, false, 10));
    let msix = scan.msix_cap.unwrap();
    assert_eq!((msix.offset, msix.table_size, msix.config), (0x70, 4, 11));
    let dev = VfioPciDevice::new("x".to_string(), None, scan, 12, None);
    assert!(dev.is_intel_gfx());
    assert!(!device(None).is_intel_gfx());
    let mut empty = config_space(1);
    empty[0x34] = 0;
    assert!(crate::scan(&empty).msi_cap.is_none());
}

#[test]
fn config_reads() {
    let mut dev = device(None);
    assert_eq!(dev.read_config_register(0x1c), ConfigRead::Register { reg: 0x70 });
    assert_eq!(
        dev.config_register_read(0x70, 0x0003_9011),
        ConfigRead::MsixControl { reg: 0x70, config: 0x0003_9011 }
    );
    assert_eq!(
        dev.config_msix_control_read(0x70, 0x8003_9011),
        ConfigRead::Done { config: 0x8003_9011 }
    );
    assert_eq!(dev.config_register_read(0x50, 0x12345678), ConfigRead::Done { config: 0x12345678 });
    assert_eq!(dev.config_register_read(0x10, 0x8), ConfigRead::Done { config: 0x8 });
    dev.io_regions.push(PciBarConfiguration::new(
        0,
        0x80,
        PciBarRegionType::IoRegion,
        PciBarPrefetchable::NotPrefetchable,
    ));
    assert_eq!(
        dev.config_register_read(0x10, 0xe001),
        ConfigRead::Command { reg: 0x10, config: 0xe001 }
    );
    // I/O regions are hidden, whether or not the guest has enabled I/O space accesses.
    assert_eq!(dev.config_command_read(0x10, 0xe001, 3), ConfigRead::Done { config: 0 });
    assert_eq!(dev.config_command_read(0x10, 0xe001, 0), ConfigRead::Done { config: 0 });
    dev.mmio_regions.push(PciBarConfiguration::new(
        1,
        0x1000,
        PciBarRegionType::Memory32BitRegion,
        PciBarPrefetchable::NotPrefetchable,
    ));
    assert_eq!(
        dev.config_register_read(0x14, 0x8000),
        ConfigRead::Command { reg: 0x14, config: 0x8000 }
    );
    assert_eq!(dev.config_command_read(0x14, 0x8000, 2), ConfigRead::Done { config: 0x8000 });
}

#[test]
fn access_that_ends_beyond_the_address_space_is_noticed() {
    let dev = device(None);
    assert!(dev.access_end_fits(0x52, 2));
    assert!(!dev.access_end_fits(u64::MAX, 1));
    // The lower half of the address counts for MSI-X.
    assert!(!dev.access_end_fits(0x1_0000_0010, 0xffff_fff0));
    assert!(dev.access_end_fits(0x1_0000_0010, 0xffff_ffef));
}

#[test]
fn stolen_memory_of_intel_graphics_reads_as_zero() {
    let mut c = config_space(0x8086);
    c[0x34] = 0;
    let dev = VfioPciDevice::new("x".to_string(), None, scan(&c), 12, None);
    assert_eq!(dev.config_register_read(0x50, 0x12345678), ConfigRead::Done { config: 0x12340078 });
    assert_eq!(dev.config_register_read(0x54, 0x12345678), ConfigRead::Done { config: 0x12345678 });
}

#[test]
fn plain_write_only_goes_through() {
    let mut dev = device(None);
    assert_eq!(config_start(0x10, 2), 0x42);
    assert_eq!(dev.write_config_register(0x10, 2, &[1, 2]), ConfigWrite::WriteThrough);
    let end =
        dev.config_write_goes_on(ConfigWrite::WriteThrough, ConfigReply::Finished, 0x42, &[1, 2]);
    assert_eq!(end, ConfigWrite::Done);
}

#[test]
fn first_write_starts_the_worker() {
    let mut dev = device(Some(40));
    let data = [0u8; 4];
    let mut at = dev.write_config_register(0x10, 0, &data);
    assert_eq!(at, ConfigWrite::Worker(WorkerStart::CreateRequestEvent { vm_socket: 40 }));
    let mut replies = vec![
        ConfigReply::Event(Some(41)),
        ConfigReply::Success(true),
        ConfigReply::EventPair(Some((42, 43))),
    ]
    .into_iter();
    while let Some(reply) = replies.next() {
        at = dev.config_write_goes_on(at, reply, 0x40, &data);
    }
    assert_eq!(
        at,
        ConfigWrite::Worker(WorkerStart::Spawn { vm_socket: 40, req_evt: 41, kill_evt: 43 })
    );
    at = dev.config_write_goes_on(at, ConfigReply::Success(true), 0x40, &data);
    assert_eq!(at, ConfigWrite::WriteThrough);
    assert!(dev.worker_thread);
    assert_eq!(dev.write_config_register(0x10, 0, &data), ConfigWrite::WriteThrough);
    assert_eq!(dev.release_worker(), (Some(42), true));
    assert_eq!(dev.release_worker(), (None, false));
}

#[test]
fn worker_that_cannot_be_started_is_not_tried_again() {
    let mut dev = device(Some(40));
    let data = [0u8; 4];
    let at = dev.write_config_register(0x10, 0, &data);
    let at = dev.config_write_goes_on(at, ConfigReply::Event(None), 0x40, &data);
    assert_eq!(at, ConfigWrite::WriteThrough);
    assert!(!dev.worker_thread);
    assert_eq!(dev.write_config_register(0x10, 0, &data), ConfigWrite::WriteThrough);
}

#[test]
fn enabling_msi_switches_the_interrupt() {
    let mut dev = device(None);
    let data = [1u8, 0];
    let at = dev.write_config_register(0x14, 2, &data);
    assert_eq!(at, ConfigWrite::Msi(MsiWrite::CreateEvent));
    let at = dev.config_write_goes_on(at, ConfigReply::Event(Some(20)), 0x52, &data);
    let at = dev.config_write_goes_on(at, ConfigReply::Gsi(Some(5)), 0x52, &data);
    assert!(matches!(
        at,
        ConfigWrite::Msi(MsiWrite::Route(VmIrqRequest::AddMsiRoute { gsi: 5, .. }, Some(_)))
    ));
    let at = dev.config_write_goes_on(at, ConfigReply::Finished, 0x52, &data);
    assert_eq!(at, ConfigWrite::MsiSwitch(IrqStep::EnableMsi { irqfd: 20 }));
    let at = dev.config_write_goes_on(at, ConfigReply::Success(true), 0x52, &data);
    assert_eq!(at, ConfigWrite::WriteThrough);
    assert_eq!(dev.irq_type, Some(VfioIrqType::Msi));
}

#[test]
fn enabling_msix_switches_the_interrupt() {
    let mut dev = device(None);
    let data = [0x03u8, 0x80];
    let mut at = dev.write_config_register(0x1c, 2, &data);
    assert_eq!(at, ConfigWrite::MsixControl);
    let reply = ConfigReply::Msix(
        MsixStatus { enabled: false, masked: false },
        MsixStatus { enabled: true, masked: false },
    );
    at = dev.config_write_goes_on(at, reply, 0x72, &data);
    assert_eq!(at, ConfigWrite::MsixSwitch(IrqStep::CollectMsixIrqfds));
    while let ConfigWrite::MsixSwitch(_) = at {
        at = dev.config_write_goes_on(at, ConfigReply::Success(true), 0x72, &data);
    }
    assert_eq!(at, ConfigWrite::WriteThrough);
    assert_eq!(dev.irq_type, Some(VfioIrqType::Msix));
}

#[test]
fn moved_region_is_mapped_anew() {
    let mut dev = device(None);
    dev.mmio_regions.push(
        PciBarConfiguration::new(
            0,
            0x1000,
            PciBarRegionType::Memory32BitRegion,
            PciBarPrefetchable::NotPrefetchable,
        )
        .set_address(0x4000),
    );
    dev.remap = false;
    let through = ConfigWrite::WriteThrough;
    let data = 0x8000u32.to_le_bytes();
    assert_eq!(dev.write_config_register(4, 0, &data), through);
    let at = dev.config_write_goes_on(through, ConfigReply::Finished, 0x10, &data);
    assert_eq!(at, ConfigWrite::ReadCommand);
    assert_eq!((dev.mmio_regions[0].addr, dev.remap), (0x8000, true));
    let enabled = dev.config_write_goes_on(at, ConfigReply::Command(2), 0x10, &data);
    assert_eq!(enabled, ConfigWrite::MapBars);
    let disabled = dev.config_write_goes_on(at, ConfigReply::Command(1), 0x10, &data);
    assert_eq!(disabled, ConfigWrite::Done);
    // Memory is enabled later.
    let cmd = [0x06u8, 0];
    let at = dev.config_write_goes_on(through, ConfigReply::Finished, 4, &cmd);
    assert_eq!(at, ConfigWrite::MapBars);
    dev.bars_mapped(vec![]);
    let at = dev.config_write_goes_on(through, ConfigReply::Finished, 4, &cmd);
    assert_eq!(at, ConfigWrite::Done);
}

#[test]
fn worker_handles_readable_events_in_order() {
    let worker = VfioPciWorker { vm_socket: 40, name: "0000:01:00.0".to_string() };
    let event = |token, is_readable| WorkerEvent { token, is_readable };
    assert_eq!(worker.run(false), WorkerStep::Stop);
    assert_eq!(worker.run(true), WorkerStep::Wait);
    assert_eq!(worker.waited(None), WorkerStep::Stop);
    let events = [
        event(WorkerToken::Kill, false),
        event(WorkerToken::ReqIrq, true),
        event(WorkerToken::Kill, true),
    ];
    assert_eq!(worker.waited(Some(&events)), WorkerStep::SendRequest { next: 2 });
    assert_eq!(worker.request_sent(true, &events, 2), WorkerStep::ReceiveAnswer { next: 2 });
    assert_eq!(worker.request_sent(false, &events, 2), WorkerStep::Stop);
    assert_eq!(worker.answer_received(true, &events, 2), WorkerStep::Stop);
    assert_eq!(worker.answer_received(false, &events[..2], 2), WorkerStep::Wait);
    let command = worker.remove_request();
    assert_eq!(command.vfio_path, "/sys/bus/pci/devices/0000:01:00.0");
    assert!(!command.add);
}

#[test]
fn interrupt_number_is_parsed() {
    assert_eq!(parse_gsi(Some("\t +42 \u{2003}\n")), 42);
    assert_eq!(parse_gsi(Some("4294967295")), u32::MAX);
    assert_eq!(parse_gsi(Some("4294967296")), 0);
    assert_eq!(parse_gsi(Some("1 2")), 0);
    assert_eq!(parse_gsi(Some("-1")), 0);
    assert_eq!(parse_gsi(Some("+")), 0);
    assert_eq!(parse_gsi(Some("")), 0);
    assert_eq!(parse_gsi(None), 0);
}

#[test]
fn paths_are_joined_like_std_does() {
    for base in ["", "/", "/sys", "/sys/"] {
        for component in ["", "a", "/b", "a/"] {
            let mut path = std::path::PathBuf::from(base);
            path.push(component);
            assert_eq!(push_path(base, component), path.to_str().unwrap());
        }
    }
    assert_eq!(irq_file("0000:01:00.0"), "/sys/bus/pci/devices/0000:01:00.0/irq");
}

#[test]
fn iommu_mappings() {
    let wrapper = VfioWrapper::new(50);
    assert_eq!(wrapper.as_raw_descriptors(), vec![50]);
    let map = |perm| MappingInfo { iova: 0x1000, gpa: GuestAddress(0x2000), size: 0x3000, perm };
    assert_eq!(wrapper.guest_range(map(Permission::RW)), (GuestAddress(0x2000), 0x3000));
    for (perm, write_en) in
        [(Permission::Read, false), (Permission::Write, true), (Permission::RW, true)]
    {
        let request = wrapper.add_map(map(perm), Ok(0x7f00_0000_0000)).unwrap();
        assert_eq!((request.iova, request.size), (0x1000, 0x3000));
        assert_eq!((request.user_addr, request.write_en), (0x7f00_0000_0000, write_en));
    }
    assert!(matches!(
        wrapper.add_map(map(Permission::Read), Err("gone".to_string())),
        Err(MemoryMapperError::GetHostAddress(r)) if r == "gone"
    ));
    assert_eq!(wrapper.remove_map(0x1000, 0x3000).unwrap(), (0x1000, 0x3000));
    assert!(wrapper.remove_map(u64::MAX, 0).is_ok());
    assert!(matches!(wrapper.remove_map(u64::MAX, 1), Err(MemoryMapperError::IntegerOverflow)));
    assert!(matches!(
        VfioWrapper::container_done(Err("busy".to_string())),
        Err(MemoryMapperError::Vfio(r)) if r == "busy"
    ));
    assert!(VfioWrapper::container_done(Ok(())).is_ok());
    assert_eq!(wrapper.get_mask(Ok(0x1000)).unwrap(), 0x1000);
    assert!(matches!(wrapper.get_mask(Err("x".to_string())), Err(MemoryMapperError::Vfio(_))));
    assert!(matches!(wrapper.translate(0, 1), Err(MemoryMapperError::Unimplemented)));
}

#[test]
fn data_is_written_through_once() {
    let mut dev = device(Some(40));
    // Message control of MSI: the worker, an interrupt and a switch all come before the write.
    let data = [1u8, 0];
    let mut at = dev.write_config_register(0x14, 2, &data);
    let mut written = 0;
    while at != ConfigWrite::Done {
        let reply = match at {
            ConfigWrite::Worker(WorkerStart::CreateRequestEvent { .. })
            | ConfigWrite::Msi(MsiWrite::CreateEvent) => ConfigReply::Event(Some(41)),
            ConfigWrite::Worker(WorkerStart::CreateKillEvent { .. }) => {
                ConfigReply::EventPair(Some((42, 43)))
            }
            ConfigWrite::Worker(_) | ConfigWrite::MsiSwitch(_) | ConfigWrite::MsixSwitch(_) => {
                ConfigReply::Success(true)
            }
            ConfigWrite::Msi(MsiWrite::Allocate(_)) => ConfigReply::Gsi(Some(5)),
            ConfigWrite::WriteThrough => {
                written += 1;
                ConfigReply::Finished
            }
            _ => ConfigReply::Finished,
        };
        at = dev.config_write_goes_on(at, reply, 0x52, &data);
    }
    assert_eq!(written, 1);
    assert!(dev.worker_thread);
    assert_eq!(dev.irq_type, Some(VfioIrqType::Msi));
}

#[test]
fn worker_handles_a_whole_batch() {
    let worker = VfioPciWorker { vm_socket: 40, name: "0000:01:00.0".to_string() };
    let request = WorkerEvent { token: WorkerToken::ReqIrq, is_readable: true };
    let kill = WorkerEvent { token: WorkerToken::Kill, is_readable: true };
    let batch = |events: &[WorkerEvent], sent: bool, answered: bool| {
        let mut step = worker.waited(Some(events));
        let mut requests = 0;
        loop {
            step = match step {
                WorkerStep::SendRequest { next } => {
                    requests += 1;
                    worker.request_sent(sent, events, next)
                }
                WorkerStep::ReceiveAnswer { next } => {
                    worker.answer_received(answered, events, next)
                }
                end => return (end, requests),
            };
        }
    };
    assert_eq!(batch(&[request, request], true, true), (WorkerStep::Stop, 1));
    assert_eq!(batch(&[request, request], true, false), (WorkerStep::Wait, 2));
    assert_eq!(batch(&[request, request, kill], false, true), (WorkerStep::Stop, 2));
    assert_eq!(batch(&[], true, true), (WorkerStep::Wait, 0));
}
