//! Gives a device its legacy interrupt (INTx).
use vstd::prelude::*;

use crate::device::{DeviceView, VfioPciDevice};
use crate::irq::IrqStep;
use crate::msi::RawDescriptor;
use crate::text::parse_gsi;

verus! {

/// Offset of the register that holds the number of the interrupt.
pub const PCI_INTERRUPT_NUM: u32 = 0x3C;

/// Offset of the register that tells which interrupt pin the device uses.
pub const PCI_INTERRUPT_PIN: u32 = 0x3D;

/// An interrupt pin.
#[derive(Clone, Copy, PartialEq, Eq, Structural, Debug)]
pub enum PciInterruptPin {
    IntA,
    IntB,
    IntC,
    IntD,
}

/// What to do next to give a device its interrupt.
#[derive(Clone, Copy, PartialEq, Eq, Debug)]
pub enum AssignIrq {
    /// Read the interrupt pin register.
    ReadPin,
    /// Duplicate the event of the interrupt.
    CloneEvent { pin: PciInterruptPin },
    /// Duplicate the event that unmasks the interrupt.
    CloneResampleEvent { pin: PciInterruptPin },
    /// Go on enabling INTx.
    EnableIntx { pin: PciInterruptPin, step: IrqStep },
    /// Read the file with the interrupt number: see [`crate::text::irq_file`].
    ReadGsi { pin: PciInterruptPin },
    /// Write this to the register that holds the number of the interrupt.
    WriteNumber { pin: PciInterruptPin, gsi: u32, value: u8 },
    /// Nothing is left to be done; the device has this interrupt, if it has one.
    Done { irq: Option<(u32, PciInterruptPin)> },
}

/// The pin that the interrupt pin register tells, if the device uses one.
pub open spec fn interrupt_pin(register: u8) -> Option<PciInterruptPin> {
    if register == 1 {
        Some(PciInterruptPin::IntA)
    } else if register == 2 {
        Some(PciInterruptPin::IntB)
    } else if register == 3 {
        Some(PciInterruptPin::IntC)
    } else if register == 4 {
        Some(PciInterruptPin::IntD)
    } else {
        None
    }
}

/// Goes on with enabling INTx.
pub open spec fn intx_going_on(pin: PciInterruptPin, step: IrqStep) -> AssignIrq {
    if step == IrqStep::Done {
        AssignIrq::ReadGsi { pin }
    } else {
        AssignIrq::EnableIntx { pin, step }
    }
}

impl VfioPciDevice {
    /// Starts to give the device its interrupt.
    pub fn assign_irq(&self) -> (next: AssignIrq)
        ensures
            next == AssignIrq::ReadPin,
    {
        AssignIrq::ReadPin
    }

    /// Takes the interrupt pin register. A device that uses no pin gets no interrupt.
    pub fn interrupt_pin_read(register: u8) -> (next: AssignIrq)
        ensures
            next == (match interrupt_pin(register) {
                Some(pin) => AssignIrq::CloneEvent { pin },
                None => AssignIrq::Done { irq: None },
            }),
    {
        let pin = match register {
            1 => PciInterruptPin::IntA,
            2 => PciInterruptPin::IntB,
            3 => PciInterruptPin::IntC,
            4 => PciInterruptPin::IntD,
            _ => {
                return AssignIrq::Done { irq: None };
            },
        };
        AssignIrq::CloneEvent { pin }
    }

    /// Takes the event of the interrupt, if it could be duplicated. Without it the device gets no
    /// interrupt.
    pub fn interrupt_event_cloned(&mut self, pin: PciInterruptPin, event: Option<RawDescriptor>) -> (
    next: AssignIrq)
        ensures
            match event {
                Some(_) => next == (AssignIrq::CloneResampleEvent { pin }) && final(self)@ == (
                DeviceView { interrupt_evt: event, ..old(self)@ }),
                None => next == (AssignIrq::Done { irq: None }) && final(self)@ == old(self)@,
            },
    {
        if event.is_none() {
            return AssignIrq::Done { irq: None };
        }
        self.interrupt_evt = event;
        AssignIrq::CloneResampleEvent { pin }
    }

    /// Takes the event that unmasks the interrupt, if it could be duplicated. Without it the device
    /// gets no interrupt, but keeps the event of the interrupt.
    pub fn resample_event_cloned(&mut self, pin: PciInterruptPin, event: Option<RawDescriptor>) -> (
    next: AssignIrq)
        ensures
            match event {
                Some(_) => final(self)@ == (DeviceView {
                    interrupt_resample_evt: event,
                    ..old(self)@
                }) && next == intx_going_on(pin, final(self)@.intx_or_done()),
                None => next == (AssignIrq::Done { irq: None }) && final(self)@ == old(self)@,
            },
    {
        if event.is_none() {
            return AssignIrq::Done { irq: None };
        }
        self.interrupt_resample_evt = event;
        match self.enable_intx() {
            IrqStep::Done => AssignIrq::ReadGsi { pin },
            step => AssignIrq::EnableIntx { pin, step },
        }
    }

    /// Takes the outcome of the call at `step`. The device gets its interrupt whether or not it
    /// could be enabled now.
    pub fn intx_call_done(&mut self, pin: PciInterruptPin, step: IrqStep, ok: bool) -> (next:
        AssignIrq)
        ensures
            final(self)@ == old(self)@.with_irq(old(self)@.irq_after(step, ok).0),
            next == intx_going_on(pin, old(self)@.irq_after(step, ok).1),
    {
        match self.irq_call_done(step, ok) {
            IrqStep::Done => AssignIrq::ReadGsi { pin },
            step => AssignIrq::EnableIntx { pin, step },
        }
    }

    /// Takes the text of the file with the interrupt number, if it could be read.
    pub fn gsi_read(pin: PciInterruptPin, text: Option<&str>) -> (next: AssignIrq)
        ensures
            ({
                let gsi: u32 = match text {
                    Some(s) => match crate::text::parsed_u32(crate::text::trimmed(s@)) {
                        Some(n) => n,
                        None => 0,
                    },
                    None => 0,
                };
                next == (AssignIrq::WriteNumber { pin, gsi, value: (gsi % 256) as u8 })
            }),
    {
        let gsi: u32 = parse_gsi(text);
        assert(gsi as u8 == gsi % 256) by (bit_vector);
        AssignIrq::WriteNumber { pin, gsi, value: gsi as u8 }
    }

    /// Takes that the number was written.
    pub fn interrupt_number_written(pin: PciInterruptPin, gsi: u32) -> (next: AssignIrq)
        ensures
            next == (AssignIrq::Done { irq: Some((gsi, pin)) }),
    {
        AssignIrq::Done { irq: Some((gsi, pin)) }
    }
}

/// Where every call succeeds, a device that was given both events uses INTx.
pub proof fn law_assigned_interrupt_is_enabled(d: DeviceView, ok: spec_fn(IrqStep) -> bool)
    requires
        d.interrupt_evt is Some,
        d.interrupt_resample_evt is Some,
        forall|s: IrqStep| #[trigger] ok(s),
    ensures
        crate::irq::irq_run(d, d.intx_or_done(), ok, 4) == (
            d.with_irq(Some(crate::device::VfioIrqType::Intx)),
            IrqStep::Done,
        ),
{
    reveal_with_fuel(crate::irq::irq_run, 5);
}

/// The interrupt pin register holds the number of the pin: one to four for A to D. With any other
/// number the device uses no pin.
pub proof fn law_pins_are_numbered(register: u8)
    ensures
        interrupt_pin(register) is Some <==> 1 <= register <= 4,
        interrupt_pin(register) == Some(PciInterruptPin::IntA) <==> register == 1,
        interrupt_pin(register) == Some(PciInterruptPin::IntB) <==> register == 2,
        interrupt_pin(register) == Some(PciInterruptPin::IntC) <==> register == 3,
        interrupt_pin(register) == Some(PciInterruptPin::IntD) <==> register == 4,
{
}

/// The interrupt number is read once enabling INTx has come to its end, and not before.
pub proof fn law_number_is_read_after_enabling(pin: PciInterruptPin, step: IrqStep)
    ensures
        intx_going_on(pin, step) == (AssignIrq::ReadGsi { pin }) <==> step == IrqStep::Done,
        step != IrqStep::Done ==> intx_going_on(pin, step) == (AssignIrq::EnableIntx { pin, step }),
{
}

} // verus!
