use vfio_pci::assign_irq::{AssignIrq, PciInterruptPin};
use vfio_pci::capability_scan::{CapabilityScan, ScanState};
use vfio_pci::device::{VfioIrqType, VfioPciDevice};
use vfio_pci::irq::{AfterIrqs, IrqStep};
use vfio_pci::msi::{MsiWrite, VfioMsiCap, VfioMsiChange, VmIrqRequest};
use vfio_pci::msix::{MsixStatus, VfioMsixCap};

fn device() -> VfioPciDevice {
    let mut scan = CapabilityScan::new(10, 11);
    scan.state = ScanState::Done { vendor_id: 0x10de, class_code: 0x03 };
    scan.msi_cap = Some(VfioMsiCap::new(0x0080, 0x50, 10));
    scan.msix_cap = Some(VfioMsixCap::new(0x0003, 0x2000, 0x3000, 0x70, 11));
    VfioPciDevice::new("0000:01:00.0".to_string(), None, scan, 12, None)
}

/// Runs a switch of the interrupt, and lists the calls made.
fn run(dev: &mut VfioPciDevice, first: IrqStep, fails: fn(&IrqStep) -> bool) -> Vec<IrqStep> {
    let mut calls = Vec::new();
    let mut step = first;
    while step != IrqStep::Done {
        calls.push(step);
        step = dev.irq_call_done(step, !fails(&step));
    }
    calls
}

#[test]
fn msi_capability_is_described_by_its_control_register() {
    for (ctl, len) in [(0x0000u16, 0x0ausize), (0x0100, 0x14), (0x0080, 0x0e), (0x0180, 0x18)] {
        let cap = VfioMsiCap::new(ctl, 0x50, 3);
        assert!(cap.is_msi_reg(0x50, len));
        assert!(!cap.is_msi_reg(0x50, len + 1));
        assert!(!cap.is_msi_reg(0x4f, 1));
        assert!(cap.is_msi_reg(0x50 + len as u64 - 1, 1));
        assert!(!cap.is_msi_reg(0x50 + len as u64, 1));
    }
}

#[test]
fn halves_of_the_message_address() {
    let mut a = VfioMsiCap::new(0x0080, 0x50, 3);
    assert_eq!(a.write_msi_reg(0x54, &[0x00, 0x10, 0xe0, 0xfe]), MsiWrite::Done(None));
    assert_eq!(a.write_msi_reg(0x58, &[1, 2, 3, 4]), MsiWrite::Done(None));
    assert_eq!(a.address, 0x0403_0201_fee0_1000);
    let mut b = VfioMsiCap::new(0x0080, 0x50, 3);
    b.write_msi_reg(0x58, &[1, 2, 3, 4]);
    b.write_msi_reg(0x54, &[0x00, 0x10, 0xe0, 0xfe]);
    let mut c = VfioMsiCap::new(0x0080, 0x50, 3);
    c.write_msi_reg(0x54, &[0x00, 0x10, 0xe0, 0xfe, 1, 2, 3, 4]);
    assert_eq!(a, b);
    assert_eq!(a, c);
    // A capability with 32-bit addresses has its data where the upper half would be.
    let mut d = VfioMsiCap::new(0, 0x50, 3);
    d.write_msi_reg(0x54, &[0x00, 0x10, 0xe0, 0xfe]);
    d.write_msi_reg(0x58, &[0x34, 0x12]);
    assert_eq!((d.address, d.data), (0xfee0_1000, 0x1234));
    // Part of a register changes nothing.
    let before = d;
    assert_eq!(d.write_msi_reg(0x54, &[1, 2]), MsiWrite::Done(None));
    assert_eq!(d.write_msi_reg(0x5c, &[1, 2]), MsiWrite::Done(None));
    assert_eq!(d, before);
}

#[test]
fn msi_gets_a_routed_interrupt() {
    let mut cap = VfioMsiCap::new(0, 0x50, 3);
    cap.write_msi_reg(0x54, &[0x00, 0x10, 0xe0, 0xfe]);
    assert_eq!(cap.write_msi_reg(0x52, &[1, 0]), MsiWrite::CreateEvent);
    assert_eq!(
        cap.event_created(Some(20)),
        MsiWrite::Allocate(VmIrqRequest::AllocateOneMsi { irqfd: 20 })
    );
    assert_eq!(
        cap.msi_allocated(Some(5)),
        MsiWrite::Route(
            VmIrqRequest::AddMsiRoute { gsi: 5, msi_address: 0xfee0_1000, msi_data: 0 },
            Some(VfioMsiChange::Enable)
        )
    );
    // The message changes while MSI is on.
    assert_eq!(
        cap.write_msi_reg(0x58, &[0x41, 0]),
        MsiWrite::Route(
            VmIrqRequest::AddMsiRoute { gsi: 5, msi_address: 0xfee0_1000, msi_data: 0x41 },
            None
        )
    );
    assert_eq!(cap.write_msi_reg(0x58, &[0x41, 0]), MsiWrite::Done(None));
    assert_eq!(cap.write_msi_reg(0x52, &[0, 0]), MsiWrite::Done(Some(VfioMsiChange::Disable)));
    // Without MSI the message can change unnoticed; the interrupt is still there.
    assert_eq!(cap.write_msi_reg(0x58, &[0x42, 0]), MsiWrite::Done(None));
    assert_eq!(
        cap.write_msi_reg(0x52, &[1, 0]),
        MsiWrite::Route(
            VmIrqRequest::AddMsiRoute { gsi: 5, msi_address: 0xfee0_1000, msi_data: 0x42 },
            Some(VfioMsiChange::Enable)
        )
    );
    assert_eq!(cap.get_msi_irqfd(), Some(20));
    assert_eq!(cap.destroy(), Some(VmIrqRequest::ReleaseOneIrq { gsi: 5, irqfd: 20 }));
    assert_eq!(cap.destroy(), None);
}

#[test]
fn msi_without_an_event_or_an_interrupt() {
    let mut cap = VfioMsiCap::new(0, 0x50, 3);
    assert_eq!(cap.write_msi_reg(0x52, &[1, 0]), MsiWrite::CreateEvent);
    assert_eq!(cap.event_created(None), MsiWrite::Done(Some(VfioMsiChange::Enable)));
    assert_eq!(cap.irqfd, None);
    cap.event_created(Some(20));
    assert_eq!(cap.msi_allocated(None), MsiWrite::Done(Some(VfioMsiChange::Enable)));
    assert_eq!((cap.irqfd, cap.gsi), (Some(20), None));
    assert_eq!(cap.destroy(), None);
}

#[test]
fn msix_table_is_cut_short_by_the_pba() {
    let cap = VfioMsixCap::new(0x87ff, 0x0002, 0x1002, 0x70, 11);
    assert_eq!(cap.table_size, 0x100);
    assert_eq!((cap.table_pci_bar, cap.table_offset, cap.table_size_bytes), (2, 0, 0x1000));
    assert_eq!((cap.pba_pci_bar, cap.pba_offset, cap.pba_size_bytes), (2, 0x1000, 32));
    let other_bar = VfioMsixCap::new(0x87ff, 0x0002, 0x1003, 0x70, 11);
    assert_eq!((other_bar.table_size, other_bar.pba_size_bytes), (2048, 256));
    assert!(cap.is_msix_table(2, 0xfff));
    assert!(!cap.is_msix_table(2, 0x1000));
    assert!(!cap.is_msix_table(3, 0));
    assert!(cap.is_msix_pba(2, 0x101f));
    assert!(!cap.is_msix_pba(2, 0x1020));
    assert_eq!(cap.get_msix_table(2), Some((0, 0x1000)));
    assert_eq!(cap.get_msix_pba(1), None);
}

#[test]
fn msix_control_register() {
    let cap = VfioMsixCap::new(3, 0x2000, 0x3000, 0x70, 11);
    assert!(cap.is_msix_control_reg(0x70, 4));
    assert!(cap.is_msix_control_reg(0x73, 1));
    assert!(!cap.is_msix_control_reg(0x70, 2));
    assert!(!cap.is_msix_control_reg(0x74, 4));
    let off = MsixStatus { enabled: false, masked: false };
    let on = MsixStatus { enabled: true, masked: false };
    let masked = MsixStatus { enabled: true, masked: true };
    let control = VfioMsixCap::write_msix_control;
    assert_eq!(control(off, on), Some(VfioMsiChange::Enable));
    assert_eq!(control(masked, on), Some(VfioMsiChange::Enable));
    assert_eq!(control(on, masked), Some(VfioMsiChange::Disable));
    assert_eq!(control(on, off), Some(VfioMsiChange::Disable));
    assert_eq!(control(off, off), None);
    assert_eq!(control(on, on), None);
    assert_eq!(control(off, MsixStatus { enabled: false, masked: true }), None);
}

#[test]
fn every_vector_needs_an_event() {
    let cap = VfioMsixCap::new(1, 0x2000, 0x3000, 0x70, 11);
    assert_eq!(cap.get_msix_irqfds(&[Some(7), Some(8)]), Some(vec![7, 8]));
    assert_eq!(cap.get_msix_irqfds(&[Some(7), None]), None);
}

#[test]
fn interrupt_is_assigned_and_enabled() {
    let mut dev = device();
    assert_eq!(dev.assign_irq(), AssignIrq::ReadPin);
    assert_eq!(VfioPciDevice::interrupt_pin_read(0), AssignIrq::Done { irq: None });
    assert_eq!(VfioPciDevice::interrupt_pin_read(5), AssignIrq::Done { irq: None });
    let pin = PciInterruptPin::IntC;
    assert_eq!(VfioPciDevice::interrupt_pin_read(3), AssignIrq::CloneEvent { pin });
    assert_eq!(dev.interrupt_event_cloned(pin, None), AssignIrq::Done { irq: None });
    assert_eq!(dev.interrupt_event_cloned(pin, Some(30)), AssignIrq::CloneResampleEvent { pin });
    assert_eq!(dev.resample_event_cloned(pin, None), AssignIrq::Done { irq: None });
    assert_eq!(dev.interrupt_evt, Some(30));
    let mut next = dev.resample_event_cloned(pin, Some(31));
    while let AssignIrq::EnableIntx { pin, step } = next {
        next = dev.intx_call_done(pin, step, true);
    }
    assert_eq!(next, AssignIrq::ReadGsi { pin });
    assert_eq!(dev.irq_type, Some(VfioIrqType::Intx));
    assert_eq!(
        VfioPciDevice::gsi_read(pin, Some(" 300\n")),
        AssignIrq::WriteNumber { pin, gsi: 300, value: 44 }
    );
    assert_eq!(
        VfioPciDevice::gsi_read(pin, None),
        AssignIrq::WriteNumber { pin, gsi: 0, value: 0 }
    );
    assert_eq!(
        VfioPciDevice::interrupt_number_written(pin, 300),
        AssignIrq::Done { irq: Some((300, pin)) }
    );
}

#[test]
fn switch_from_intx_to_msi_and_back() {
    let mut dev = device();
    dev.interrupt_evt = Some(30);
    dev.interrupt_resample_evt = Some(31);
    let first = dev.enable_intx();
    assert_eq!(run(&mut dev, first, |_| false).len(), 4);
    dev.msi_cap.as_mut().unwrap().irqfd = Some(20);
    let first = dev.msi_changed(Some(VfioMsiChange::Enable));
    let calls = run(&mut dev, first, |_| false);
    assert_eq!(
        calls,
        vec![
            IrqStep::Disable { kind: VfioIrqType::Intx, then: AfterIrqs::EnableMsi },
            IrqStep::EnableMsi { irqfd: 20 },
        ]
    );
    assert_eq!(dev.irq_type, Some(VfioIrqType::Msi));
    // Switching to MSI-X restores INTx in between.
    let first = dev.msix_changed(Some(VfioMsiChange::Enable));
    let calls = run(&mut dev, first, |_| false);
    assert_eq!(calls.len(), 8);
    assert_eq!(calls[6], IrqStep::CollectMsixIrqfds);
    assert_eq!(dev.irq_type, Some(VfioIrqType::Msix));
    let first = dev.msix_changed(Some(VfioMsiChange::Disable));
    run(&mut dev, first, |_| false);
    assert_eq!(dev.irq_type, Some(VfioIrqType::Intx));
}

#[test]
fn failed_switch_falls_back_to_intx() {
    let mut dev = device();
    dev.interrupt_evt = Some(30);
    dev.interrupt_resample_evt = Some(31);
    dev.msi_cap.as_mut().unwrap().irqfd = Some(20);
    let first = dev.enable_msi();
    run(&mut dev, first, |s| matches!(s, IrqStep::EnableMsi { .. }));
    assert_eq!(dev.irq_type, Some(VfioIrqType::Intx));
    let first = dev.enable_msix();
    run(&mut dev, first, |s| matches!(s, IrqStep::CollectMsixIrqfds));
    assert_eq!(dev.irq_type, Some(VfioIrqType::Intx));
    // INTx that cannot be unmasked is disabled again.
    let first = dev.enable_intx();
    let calls = run(&mut dev, first, |s| matches!(s, IrqStep::UnmaskIntx { .. }));
    assert_eq!(
        calls.last(),
        Some(&IrqStep::Disable { kind: VfioIrqType::Intx, then: AfterIrqs::Nothing })
    );
    assert_eq!(dev.irq_type, None);
}

#[test]
fn msi_that_cannot_be_disabled_stays() {
    let mut dev = device();
    dev.msi_cap.as_mut().unwrap().irqfd = Some(20);
    let first = dev.enable_msi();
    run(&mut dev, first, |_| false);
    let first = dev.msi_changed(Some(VfioMsiChange::Disable));
    run(&mut dev, first, |_| true);
    assert_eq!(dev.irq_type, Some(VfioIrqType::Msi));
    assert_eq!(dev.msi_changed(None), IrqStep::Done);
}

#[test]
fn disabled_interrupts_are_off() {
    let mut dev = device();
    dev.interrupt_evt = Some(30);
    dev.interrupt_resample_evt = Some(31);
    let first = dev.enable_msix();
    run(&mut dev, first, |_| false);
    assert_eq!(dev.irq_type, Some(VfioIrqType::Msix));
    let first = dev.disable_irqs(AfterIrqs::StayOff);
    let calls = run(&mut dev, first, |_| false);
    // INTx is enabled in between.
    assert_eq!(calls.len(), 6);
    assert_eq!(
        calls.last(),
        Some(&IrqStep::Disable { kind: VfioIrqType::Intx, then: AfterIrqs::StayOff })
    );
    assert_eq!(dev.irq_type, None);
    // It makes no difference whether INTx could be enabled in between.
    let first = dev.enable_msix();
    run(&mut dev, first, |_| false);
    let first = dev.disable_irqs(AfterIrqs::StayOff);
    run(&mut dev, first, |s| !matches!(s, IrqStep::Disable { .. }));
    assert_eq!(dev.irq_type, None);
}
