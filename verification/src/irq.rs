//! Switches between the kinds of interrupt that a device can deliver.
//!
//! The host delivers one kind at a time. Switching takes several calls to the host, each of which
//! can fail. An [`IrqStep`] names the call to make next, and its outcome is handed to
//! [`VfioPciDevice::irq_call_done`]. Where MSI or MSI-X cannot be enabled, the device falls back
//! to its legacy interrupt (INTx).
use vstd::prelude::*;

use crate::device::{DeviceView, VfioIrqType, VfioPciDevice};
use crate::msi::{RawDescriptor, VfioMsiChange};

verus! {

/// What follows once the interrupts in use were disabled.
#[derive(Clone, Copy, PartialEq, Eq, Structural, Debug)]
pub enum AfterIrqs {
    /// Nothing: where INTx was enabled again, it stays in use.
    Nothing,
    /// INTx is disabled too, and no interrupt is in use.
    StayOff,
    EnableMsi,
    EnableMsix,
}

/// The call to the host that switching the interrupt takes next.
#[derive(Clone, Copy, PartialEq, Eq, Structural, Debug)]
pub enum IrqStep {
    /// Disable interrupts of this kind.
    Disable { kind: VfioIrqType, then: AfterIrqs },
    /// Enable INTx, signalled through `irqfd`.
    EnableIntx { irqfd: RawDescriptor, resample: RawDescriptor, then: AfterIrqs },
    /// Mask INTx.
    MaskIntx { resample: RawDescriptor, then: AfterIrqs },
    /// Let INTx be unmasked through `irqfd`.
    EnableResample { irqfd: RawDescriptor, then: AfterIrqs },
    /// Unmask INTx.
    UnmaskIntx { then: AfterIrqs },
    /// Enable MSI, signalled through `irqfd`.
    EnableMsi { irqfd: RawDescriptor },
    /// Find the events of the vectors of the emulated MSI-X table. This succeeds if every vector
    /// has one: see [`crate::msix::VfioMsixCap::get_msix_irqfds`].
    CollectMsixIrqfds,
    /// Enable MSI-X, signalled through the events that were found.
    EnableMsix,
    /// Nothing is left to be done.
    Done,
}

impl DeviceView {
    /// The device with another kind of interrupt in use.
    pub open spec fn with_irq(self, irq_type: Option<VfioIrqType>) -> DeviceView {
        DeviceView { irq_type, ..self }
    }

    /// Starts to enable INTx if both of its events are known; else that is over already.
    pub open spec fn intx_or_done(self) -> IrqStep {
        match (self.interrupt_evt, self.interrupt_resample_evt) {
            (Some(irqfd), Some(resample)) => IrqStep::EnableIntx {
                irqfd,
                resample,
                then: AfterIrqs::Nothing,
            },
            _ => IrqStep::Done,
        }
    }

    /// Goes on after the interrupts in use were disabled, but for an INTx that this enabled.
    ///
    /// Without an MSI event INTx is enabled in place of MSI.
    pub open spec fn irqs_resumed(self, then: AfterIrqs) -> IrqStep {
        if then == AfterIrqs::Nothing {
            IrqStep::Done
        } else if self.irq_type == Some(VfioIrqType::Intx) {
            IrqStep::Disable { kind: VfioIrqType::Intx, then }
        } else if then == AfterIrqs::EnableMsi {
            match self.msi_cap {
                Some(cap) if cap.irqfd is Some => IrqStep::EnableMsi { irqfd: cap.irqfd->0 },
                _ => self.intx_or_done(),
            }
        } else if then == AfterIrqs::EnableMsix && self.msix_cap is Some {
            IrqStep::CollectMsixIrqfds
        } else {
            IrqStep::Done
        }
    }

    /// Starts to enable INTx if both of its events are known, and then goes on.
    pub open spec fn intx_begun(self, then: AfterIrqs) -> IrqStep {
        match (self.interrupt_evt, self.interrupt_resample_evt) {
            (Some(irqfd), Some(resample)) => IrqStep::EnableIntx { irqfd, resample, then },
            _ => self.irqs_resumed(then),
        }
    }

    /// Starts to disable the interrupts in use, and then goes on.
    pub open spec fn irqs_disabling(self, then: AfterIrqs) -> IrqStep {
        match self.irq_type {
            Some(VfioIrqType::Msi) => IrqStep::Disable { kind: VfioIrqType::Msi, then },
            Some(VfioIrqType::Msix) => IrqStep::Disable { kind: VfioIrqType::Msix, then },
            _ => self.irqs_resumed(then),
        }
    }

    /// Where the outcome of the call at `step` leads: the kind of interrupt then in use, and the
    /// next step.
    pub open spec fn irq_after(self, step: IrqStep, ok: bool) -> (Option<VfioIrqType>, IrqStep) {
        match step {
            IrqStep::Disable { kind: VfioIrqType::Intx, then } => (
                None,
                self.with_irq(None).irqs_resumed(then),
            ),
            IrqStep::Disable { then, .. } => if ok {
                (None, self.with_irq(None).intx_begun(then))
            } else {
                (self.irq_type, self.irqs_resumed(then))
            },
            IrqStep::EnableIntx { resample, then, .. } => if ok {
                (self.irq_type, IrqStep::MaskIntx { resample, then })
            } else {
                (self.irq_type, self.irqs_resumed(then))
            },
            IrqStep::MaskIntx { resample, then } => if ok {
                (self.irq_type, IrqStep::EnableResample { irqfd: resample, then })
            } else {
                (self.irq_type, IrqStep::Disable { kind: VfioIrqType::Intx, then })
            },
            IrqStep::EnableResample { then, .. } => if ok {
                (self.irq_type, IrqStep::UnmaskIntx { then })
            } else {
                (self.irq_type, IrqStep::Disable { kind: VfioIrqType::Intx, then })
            },
            IrqStep::UnmaskIntx { then } => if ok {
                let intx = Some(VfioIrqType::Intx);
                (intx, self.with_irq(intx).irqs_resumed(then))
            } else {
                (self.irq_type, IrqStep::Disable { kind: VfioIrqType::Intx, then })
            },
            IrqStep::EnableMsi { .. } => if ok {
                (Some(VfioIrqType::Msi), IrqStep::Done)
            } else {
                (self.irq_type, self.intx_or_done())
            },
            IrqStep::CollectMsixIrqfds => if ok {
                (self.irq_type, IrqStep::EnableMsix)
            } else {
                (self.irq_type, self.intx_or_done())
            },
            IrqStep::EnableMsix => if ok {
                (Some(VfioIrqType::Msix), IrqStep::Done)
            } else {
                (self.irq_type, self.intx_or_done())
            },
            IrqStep::Done => (self.irq_type, IrqStep::Done),
        }
    }

    /// How a switch of MSI by the guest starts.
    pub open spec fn msi_switch(self, change: Option<VfioMsiChange>) -> IrqStep {
        match change {
            Some(VfioMsiChange::Enable) => self.irqs_disabling(AfterIrqs::EnableMsi),
            Some(VfioMsiChange::Disable) => IrqStep::Disable {
                kind: VfioIrqType::Msi,
                then: AfterIrqs::Nothing,
            },
            None => IrqStep::Done,
        }
    }

    /// How a switch of MSI-X by the guest starts.
    pub open spec fn msix_switch(self, change: Option<VfioMsiChange>) -> IrqStep {
        match change {
            Some(VfioMsiChange::Enable) => self.irqs_disabling(AfterIrqs::EnableMsix),
            Some(VfioMsiChange::Disable) => IrqStep::Disable {
                kind: VfioIrqType::Msix,
                then: AfterIrqs::Nothing,
            },
            None => IrqStep::Done,
        }
    }
}

impl VfioPciDevice {
    fn begin_intx(&self, then: AfterIrqs) -> (step: IrqStep)
        ensures
            step == self@.intx_begun(then),
    {
        if let Some(irqfd) = self.interrupt_evt {
            if let Some(resample) = self.interrupt_resample_evt {
                return IrqStep::EnableIntx { irqfd, resample, then };
            }
        }
        self.resume_after_irqs(then)
    }

    fn resume_after_irqs(&self, then: AfterIrqs) -> (step: IrqStep)
        ensures
            step == self@.irqs_resumed(then),
    {
        if then == AfterIrqs::Nothing {
            return IrqStep::Done;
        }
        // Disabling MSI or MSI-X enables INTx again, so disable that too.
        if let Some(VfioIrqType::Intx) = self.irq_type {
            return IrqStep::Disable { kind: VfioIrqType::Intx, then };
        }
        if then == AfterIrqs::EnableMsi {
            if let Some(cap) = self.msi_cap {
                if let Some(irqfd) = cap.get_msi_irqfd() {
                    return IrqStep::EnableMsi { irqfd };
                }
            }
            self.enable_intx()
        } else if then == AfterIrqs::EnableMsix && self.msix_cap.is_some() {
            IrqStep::CollectMsixIrqfds
        } else {
            IrqStep::Done
        }
    }

    /// Starts to enable INTx, if both of its events are known.
    pub fn enable_intx(&self) -> (step: IrqStep)
        ensures
            step == self@.intx_or_done(),
            step == self@.intx_begun(AfterIrqs::Nothing),
    {
        if let Some(irqfd) = self.interrupt_evt {
            if let Some(resample) = self.interrupt_resample_evt {
                return IrqStep::EnableIntx { irqfd, resample, then: AfterIrqs::Nothing };
            }
        }
        IrqStep::Done
    }

    /// Starts to disable INTx.
    pub fn disable_intx(&self, then: AfterIrqs) -> (step: IrqStep)
        ensures
            step == (IrqStep::Disable { kind: VfioIrqType::Intx, then }),
    {
        IrqStep::Disable { kind: VfioIrqType::Intx, then }
    }

    /// Starts to disable the interrupts in use.
    pub fn disable_irqs(&self, then: AfterIrqs) -> (step: IrqStep)
        ensures
            step == self@.irqs_disabling(then),
    {
        match self.irq_type {
            Some(VfioIrqType::Msi) => self.disable_msi(then),
            Some(VfioIrqType::Msix) => self.disable_msix(then),
            _ => self.resume_after_irqs(then),
        }
    }

    /// Starts to switch to MSI.
    pub fn enable_msi(&self) -> (step: IrqStep)
        ensures
            step == self@.irqs_disabling(AfterIrqs::EnableMsi),
    {
        self.disable_irqs(AfterIrqs::EnableMsi)
    }

    /// Starts to disable MSI.
    pub fn disable_msi(&self, then: AfterIrqs) -> (step: IrqStep)
        ensures
            step == (IrqStep::Disable { kind: VfioIrqType::Msi, then }),
    {
        IrqStep::Disable { kind: VfioIrqType::Msi, then }
    }

    /// Starts to switch to MSI-X.
    pub fn enable_msix(&self) -> (step: IrqStep)
        ensures
            step == self@.irqs_disabling(AfterIrqs::EnableMsix),
    {
        self.disable_irqs(AfterIrqs::EnableMsix)
    }

    /// Starts to disable MSI-X.
    pub fn disable_msix(&self, then: AfterIrqs) -> (step: IrqStep)
        ensures
            step == (IrqStep::Disable { kind: VfioIrqType::Msix, then }),
    {
        IrqStep::Disable { kind: VfioIrqType::Msix, then }
    }

    /// Starts what a switch of MSI by the guest asks for.
    pub fn msi_changed(&self, change: Option<VfioMsiChange>) -> (step: IrqStep)
        ensures
            step == self@.msi_switch(change),
    {
        match change {
            Some(VfioMsiChange::Enable) => self.enable_msi(),
            Some(VfioMsiChange::Disable) => self.disable_msi(AfterIrqs::Nothing),
            None => IrqStep::Done,
        }
    }

    /// Starts what a switch of MSI-X by the guest asks for.
    pub fn msix_changed(&self, change: Option<VfioMsiChange>) -> (step: IrqStep)
        ensures
            step == self@.msix_switch(change),
    {
        match change {
            Some(VfioMsiChange::Enable) => self.enable_msix(),
            Some(VfioMsiChange::Disable) => self.disable_msix(AfterIrqs::Nothing),
            None => IrqStep::Done,
        }
    }

    /// Takes the outcome of the call at `step`.
    pub fn irq_call_done(&mut self, step: IrqStep, ok: bool) -> (next: IrqStep)
        ensures
            final(self)@ == old(self)@.with_irq(old(self)@.irq_after(step, ok).0),
            next == old(self)@.irq_after(step, ok).1,
    {
        match step {
            IrqStep::Disable { kind: VfioIrqType::Intx, then } => {
                self.irq_type = None;
                self.resume_after_irqs(then)
            },
            IrqStep::Disable { then, .. } => {
                if ok {
                    self.irq_type = None;
                    self.begin_intx(then)
                } else {
                    self.resume_after_irqs(then)
                }
            },
            IrqStep::EnableIntx { resample, then, .. } => {
                if ok {
                    IrqStep::MaskIntx { resample, then }
                } else {
                    self.resume_after_irqs(then)
                }
            },
            IrqStep::MaskIntx { resample, then } => {
                if ok {
                    IrqStep::EnableResample { irqfd: resample, then }
                } else {
                    self.disable_intx(then)
                }
            },
            IrqStep::EnableResample { then, .. } => {
                if ok {
                    IrqStep::UnmaskIntx { then }
                } else {
                    self.disable_intx(then)
                }
            },
            IrqStep::UnmaskIntx { then } => {
                if ok {
                    self.irq_type = Some(VfioIrqType::Intx);
                    self.resume_after_irqs(then)
                } else {
                    self.disable_intx(then)
                }
            },
            IrqStep::EnableMsi { .. } => {
                if ok {
                    self.irq_type = Some(VfioIrqType::Msi);
                    IrqStep::Done
                } else {
                    self.enable_intx()
                }
            },
            IrqStep::CollectMsixIrqfds => {
                if ok {
                    IrqStep::EnableMsix
                } else {
                    self.enable_intx()
                }
            },
            IrqStep::EnableMsix => {
                if ok {
                    self.irq_type = Some(VfioIrqType::Msix);
                    IrqStep::Done
                } else {
                    self.enable_intx()
                }
            },
            IrqStep::Done => IrqStep::Done,
        }
    }
}

/// How many calls may still follow at `step`, at most.
pub open spec fn irq_rank(step: IrqStep) -> nat {
    let more = |then: AfterIrqs| if then == AfterIrqs::Nothing {
        0nat
    } else {
        8nat
    };
    match step {
        IrqStep::Disable { kind: VfioIrqType::Intx, then } => 1 + more(then),
        IrqStep::Disable { then, .. } => 6 + more(then),
        IrqStep::EnableIntx { then, .. } => 5 + more(then),
        IrqStep::MaskIntx { then, .. } => 4 + more(then),
        IrqStep::EnableResample { then, .. } => 3 + more(then),
        IrqStep::UnmaskIntx { then } => 2 + more(then),
        IrqStep::EnableMsi { .. } => 6,
        IrqStep::CollectMsixIrqfds => 7,
        IrqStep::EnableMsix => 6,
        IrqStep::Done => 0,
    }
}

/// The device and the step after at most `n` calls, of which `ok` tells which succeed.
pub open spec fn irq_run(
    d: DeviceView,
    step: IrqStep,
    ok: spec_fn(IrqStep) -> bool,
    n: nat,
) -> (DeviceView, IrqStep)
    decreases n,
{
    if n == 0 || step == IrqStep::Done {
        (d, step)
    } else {
        let (irq_type, next) = d.irq_after(step, ok(step));
        irq_run(d.with_irq(irq_type), next, ok, (n - 1) as nat)
    }
}

/// Every switch of the interrupt comes to an end, whatever the host answers.
pub proof fn law_irq_switch_ends(d: DeviceView, step: IrqStep, ok: bool)
    ensures
        step != IrqStep::Done ==> irq_rank(d.irq_after(step, ok).1) < irq_rank(step),
        irq_rank(step) == 0 <==> step == IrqStep::Done,
{
}

/// MSI or MSI-X is enabled only while INTx is not in use.
pub proof fn law_intx_is_off_when_vectors_are_enabled(d: DeviceView, step: IrqStep, ok: bool)
    requires
        step is EnableMsi || step is CollectMsixIrqfds || step is EnableMsix ==> d.irq_type != Some(
            VfioIrqType::Intx,
        ),
    ensures
        ({
            let (irq_type, next) = d.irq_after(step, ok);
            next is EnableMsi || next is CollectMsixIrqfds || next is EnableMsix ==> irq_type
                != Some(VfioIrqType::Intx)
        }),
        d.irqs_disabling(AfterIrqs::EnableMsi) is EnableMsi ==> d.irq_type != Some(
            VfioIrqType::Intx,
        ),
        d.irqs_disabling(AfterIrqs::EnableMsix) is CollectMsixIrqfds ==> d.irq_type != Some(
            VfioIrqType::Intx,
        ),
{
}

/// Where the calls that disable interrupts succeed, disabling the interrupts in use ends with none
/// in use, whatever becomes of INTx in between.
pub proof fn law_disabled_irqs_are_off(d: DeviceView, ok: spec_fn(IrqStep) -> bool)
    requires
        forall|s: IrqStep| s is Disable ==> #[trigger] ok(s),
    ensures
        irq_run(d, d.irqs_disabling(AfterIrqs::StayOff), ok, 6) == (d.with_irq(None), IrqStep::Done),
{
    reveal_with_fuel(irq_run, 7);
}

/// Where every call succeeds, switching to MSI ends with MSI if it has an event, and with INTx if
/// only that has its events.
pub proof fn law_switch_to_msi_succeeds(d: DeviceView, ok: spec_fn(IrqStep) -> bool)
    requires
        forall|s: IrqStep| #[trigger] ok(s),
    ensures
        ({
            let (end, step) = irq_run(d, d.irqs_disabling(AfterIrqs::EnableMsi), ok, 14);
            &&& step == IrqStep::Done
            &&& end == d.with_irq(
                if d.msi_cap is Some && d.msi_cap->0.irqfd is Some {
                    Some(VfioIrqType::Msi)
                } else if d.interrupt_evt is Some && d.interrupt_resample_evt is Some {
                    Some(VfioIrqType::Intx)
                } else {
                    None
                },
            )
        }),
{
    reveal_with_fuel(irq_run, 15);
}

/// Where every call succeeds, switching to MSI-X ends with MSI-X if the device has it.
pub proof fn law_switch_to_msix_succeeds(d: DeviceView, ok: spec_fn(IrqStep) -> bool)
    requires
        forall|s: IrqStep| #[trigger] ok(s),
        d.msix_cap is Some,
    ensures
        irq_run(d, d.irqs_disabling(AfterIrqs::EnableMsix), ok, 14) == (
            d.with_irq(Some(VfioIrqType::Msix)),
            IrqStep::Done,
        ),
{
    reveal_with_fuel(irq_run, 15);
}

/// Running on after `n` calls.
proof fn lemma_irq_run_add(
    d: DeviceView,
    step: IrqStep,
    ok: spec_fn(IrqStep) -> bool,
    n: nat,
    m: nat,
)
    ensures
        ({
            let (mid, at) = irq_run(d, step, ok, n);
            irq_run(d, step, ok, n + m) == irq_run(mid, at, ok, m)
        }),
    decreases n,
{
    if n > 0 && step != IrqStep::Done {
        let (irq_type, next) = d.irq_after(step, ok(step));
        lemma_irq_run_add(d.with_irq(irq_type), next, ok, (n - 1) as nat, m);
    }
}

/// INTx is enabled if its four calls succeed.
proof fn lemma_intx_enabled(d: DeviceView, then: AfterIrqs, ok: spec_fn(IrqStep) -> bool)
    requires
        forall|s: IrqStep| !(s is EnableMsi || s is EnableMsix) ==> #[trigger] ok(s),
        d.interrupt_evt is Some,
        d.interrupt_resample_evt is Some,
    ensures
        irq_run(d, d.intx_begun(then), ok, 4) == (
            d.with_irq(Some(VfioIrqType::Intx)),
            d.with_irq(Some(VfioIrqType::Intx)).irqs_resumed(then),
        ),
{
    reveal_with_fuel(irq_run, 5);
}

/// Once the interrupts in use were disabled, a switch that cannot be enabled ends with INTx.
proof fn lemma_fall_back(d: DeviceView, then: AfterIrqs, ok: spec_fn(IrqStep) -> bool)
    requires
        forall|s: IrqStep| #[trigger] ok(s) <==> !(s is EnableMsi || s is EnableMsix),
        then == AfterIrqs::EnableMsi || (then == AfterIrqs::EnableMsix && d.msix_cap is Some),
        d.interrupt_evt is Some,
        d.interrupt_resample_evt is Some,
        d.irq_type != Some(VfioIrqType::Intx),
    ensures
        exists|n: nat|
            n <= 6 && #[trigger] irq_run(d, d.irqs_resumed(then), ok, n) == (
                d.with_irq(Some(VfioIrqType::Intx)),
                IrqStep::Done,
            ),
{
    lemma_intx_enabled(d, AfterIrqs::Nothing, ok);
    let step = d.irqs_resumed(then);
    let k: nat = if step is CollectMsixIrqfds {
        2
    } else if step is EnableMsi {
        1
    } else {
        0
    };
    assert(irq_run(d, step, ok, k) == (d, d.intx_or_done())) by {
        reveal_with_fuel(irq_run, 3);
    }
    lemma_irq_run_add(d, step, ok, k, 4);
    assert(irq_run(d, step, ok, k + 4) == (d.with_irq(Some(VfioIrqType::Intx)), IrqStep::Done));
}

proof fn lemma_done_stays(
    d: DeviceView,
    step: IrqStep,
    ok: spec_fn(IrqStep) -> bool,
    n: nat,
    m: nat,
)
    requires
        n <= m,
        irq_run(d, step, ok, n).1 == IrqStep::Done,
    ensures
        irq_run(d, step, ok, m) == irq_run(d, step, ok, n),
{
    lemma_irq_run_add(d, step, ok, n, (m - n) as nat);
}

/// Where MSI or MSI-X cannot be enabled but every other call succeeds, a device with INTx falls
/// back to INTx.
pub proof fn law_failed_switch_falls_back_to_intx(
    d: DeviceView,
    then: AfterIrqs,
    ok: spec_fn(IrqStep) -> bool,
)
    requires
        forall|s: IrqStep| #[trigger] ok(s) <==> !(s is EnableMsi || s is EnableMsix),
        then == AfterIrqs::EnableMsi || (then == AfterIrqs::EnableMsix && d.msix_cap is Some),
        d.interrupt_evt is Some,
        d.interrupt_resample_evt is Some,
    ensures
        irq_run(d, d.irqs_disabling(then), ok, 14) == (
            d.with_irq(Some(VfioIrqType::Intx)),
            IrqStep::Done,
        ),
{
    let step = d.irqs_disabling(then);
    let off = d.with_irq(None);
    let on = d.with_irq(Some(VfioIrqType::Intx));
    // The calls up to where nothing is in use any more.
    let k: nat = if d.irq_type is None {
        0
    } else if d.irq_type == Some(VfioIrqType::Intx) {
        1
    } else {
        6
    };
    assert(irq_run(d, step, ok, k) == (off, off.irqs_resumed(then))) by {
        if d.irq_type == Some(VfioIrqType::Intx) {
            reveal_with_fuel(irq_run, 2);
        } else if d.irq_type is Some {
            assert(irq_run(d, step, ok, 1) == (off, off.intx_begun(then))) by {
                reveal_with_fuel(irq_run, 2);
            }
            lemma_intx_enabled(off, then, ok);
            lemma_irq_run_add(d, step, ok, 1, 4);
            lemma_irq_run_add(d, step, ok, 5, 1);
            assert(irq_run(on, on.irqs_resumed(then), ok, 1) == (off, off.irqs_resumed(then))) by {
                reveal_with_fuel(irq_run, 2);
            }
        }
    }
    lemma_fall_back(off, then, ok);
    let n = choose|n: nat|
        n <= 6 && #[trigger] irq_run(off, off.irqs_resumed(then), ok, n) == (
            off.with_irq(Some(VfioIrqType::Intx)),
            IrqStep::Done,
        );
    lemma_irq_run_add(d, step, ok, k, n);
    lemma_done_stays(d, step, ok, k + n, 14);
}

/// Where every call succeeds, disabling MSI or MSI-X puts a device with INTx back to INTx.
pub proof fn law_disabling_vectors_restores_intx(
    d: DeviceView,
    kind: VfioIrqType,
    ok: spec_fn(IrqStep) -> bool,
)
    requires
        kind != VfioIrqType::Intx,
        forall|s: IrqStep| #[trigger] ok(s),
    ensures
        irq_run(d, IrqStep::Disable { kind, then: AfterIrqs::Nothing }, ok, 5) == (
            d.with_irq(
                if d.interrupt_evt is Some && d.interrupt_resample_evt is Some {
                    Some(VfioIrqType::Intx)
                } else {
                    None
                },
            ),
            IrqStep::Done,
        ),
{
    reveal_with_fuel(irq_run, 6);
}

/// What the guest's switching of MSI leads to where every call succeeds. Disabled, MSI is no longer in
/// use: INTx is, if both of its events are known, and otherwise nothing. Enabled, MSI is in use if it
/// has an event, and otherwise it is as if it was disabled. Without a change nothing happens.
pub proof fn law_guest_switches_msi(d: DeviceView, ok: spec_fn(IrqStep) -> bool)
    requires
        forall|s: IrqStep| #[trigger] ok(s),
    ensures
        ({
            let fallback = if d.interrupt_evt is Some && d.interrupt_resample_evt is Some {
                Some(VfioIrqType::Intx)
            } else {
                None
            };
            let (off, off_step) = irq_run(d, d.msi_switch(Some(VfioMsiChange::Disable)), ok, 5);
            let (on, on_step) = irq_run(d, d.msi_switch(Some(VfioMsiChange::Enable)), ok, 14);
            &&& off_step == IrqStep::Done && off == (DeviceView { irq_type: fallback, ..d })
            &&& on_step == IrqStep::Done && on == (DeviceView {
                irq_type: if d.msi_cap is Some && d.msi_cap->0.irqfd is Some {
                    Some(VfioIrqType::Msi)
                } else {
                    fallback
                },
                ..d
            })
            &&& d.msi_switch(None) == IrqStep::Done
        }),
{
    law_disabling_vectors_restores_intx(d, VfioIrqType::Msi, ok);
    law_switch_to_msi_succeeds(d, ok);
}

/// What the guest's switching of MSI-X leads to where every call succeeds. Disabled, MSI-X is no
/// longer in use: INTx is, if both of its events are known, and otherwise nothing. Enabled, it is in
/// use. Without a change nothing happens.
pub proof fn law_guest_switches_msix(d: DeviceView, ok: spec_fn(IrqStep) -> bool)
    requires
        forall|s: IrqStep| #[trigger] ok(s),
        d.msix_cap is Some,
    ensures
        ({
            let (off, off_step) = irq_run(d, d.msix_switch(Some(VfioMsiChange::Disable)), ok, 5);
            let (on, on_step) = irq_run(d, d.msix_switch(Some(VfioMsiChange::Enable)), ok, 14);
            &&& off_step == IrqStep::Done && off == (DeviceView {
                irq_type: if d.interrupt_evt is Some && d.interrupt_resample_evt is Some {
                    Some(VfioIrqType::Intx)
                } else {
                    None
                },
                ..d
            })
            &&& on_step == IrqStep::Done && on == (DeviceView {
                irq_type: Some(VfioIrqType::Msix),
                ..d
            })
            &&& d.msix_switch(None) == IrqStep::Done
        }),
{
    law_disabling_vectors_restores_intx(d, VfioIrqType::Msix, ok);
    law_switch_to_msix_succeeds(d, ok);
}

/// Where the host refuses to disable MSI or MSI-X, the guest's disabling of it changes nothing.
pub proof fn law_refused_disabling_changes_nothing(d: DeviceView, ok: spec_fn(IrqStep) -> bool)
    requires
        forall|s: IrqStep| !#[trigger] ok(s),
    ensures
        irq_run(d, d.msi_switch(Some(VfioMsiChange::Disable)), ok, 1) == (d, IrqStep::Done),
        irq_run(d, d.msix_switch(Some(VfioMsiChange::Disable)), ok, 1) == (d, IrqStep::Done),
{
    reveal_with_fuel(irq_run, 2);
}

/// INTx takes four calls. If the first fails, what was in use stays as it was. If a later one fails,
/// INTx is disabled again, and nothing is in use. Without both of its events nothing is done.
pub proof fn law_intx_needs_all_of_its_calls(d: DeviceView, ok: spec_fn(IrqStep) -> bool)
    ensures
        ({
            let (end, step) = irq_run(d, d.intx_or_done(), ok, 5);
            &&& step == IrqStep::Done
            &&& match (d.interrupt_evt, d.interrupt_resample_evt) {
                (Some(irqfd), Some(resample)) => {
                    let then = AfterIrqs::Nothing;
                    end == (DeviceView {
                        irq_type: if !ok(IrqStep::EnableIntx { irqfd, resample, then }) {
                            d.irq_type
                        } else if ok(IrqStep::MaskIntx { resample, then }) && ok(
                            IrqStep::EnableResample { irqfd: resample, then },
                        ) && ok(IrqStep::UnmaskIntx { then }) {
                            Some(VfioIrqType::Intx)
                        } else {
                            None
                        },
                        ..d
                    })
                },
                _ => end == d,
            }
        }),
{
    reveal_with_fuel(irq_run, 6);
}

/// What the host delivers of the interrupts of a device.
#[verifier::ext_equal]
pub struct HostIrqs {
    /// The event through which INTx is signalled, if it is enabled.
    pub intx: Option<RawDescriptor>,
    pub masked: bool,
    /// The event that unmasks INTx, if there is one.
    pub resample: Option<RawDescriptor>,
    /// The event through which MSI is signalled, if it is enabled.
    pub msi: Option<RawDescriptor>,
    /// Whether MSI-X is enabled.
    pub msix: bool,
}

impl HostIrqs {
    /// Nothing is delivered.
    pub open spec fn off() -> HostIrqs {
        HostIrqs { intx: None, masked: false, resample: None, msi: None, msix: false }
    }

    /// What a call that succeeds does.
    pub open spec fn called(self, step: IrqStep) -> HostIrqs {
        match step {
            IrqStep::Disable { kind: VfioIrqType::Intx, .. } => HostIrqs {
                intx: None,
                masked: false,
                resample: None,
                ..self
            },
            IrqStep::Disable { kind: VfioIrqType::Msi, .. } => HostIrqs { msi: None, ..self },
            IrqStep::Disable { kind: VfioIrqType::Msix, .. } => HostIrqs { msix: false, ..self },
            IrqStep::EnableIntx { irqfd, .. } => HostIrqs {
                intx: Some(irqfd),
                masked: false,
                resample: None,
                ..self
            },
            IrqStep::MaskIntx { .. } => HostIrqs { masked: true, ..self },
            IrqStep::EnableResample { irqfd, .. } => HostIrqs { resample: Some(irqfd), ..self },
            IrqStep::UnmaskIntx { .. } => HostIrqs { masked: false, ..self },
            IrqStep::EnableMsi { irqfd } => HostIrqs { msi: Some(irqfd), ..self },
            IrqStep::EnableMsix => HostIrqs { msix: true, ..self },
            _ => self,
        }
    }

    /// The host delivers what the device has in use, through its events, and nothing else.
    pub open spec fn agrees_with(self, d: DeviceView) -> bool {
        match d.irq_type {
            None => self == HostIrqs::off(),
            Some(VfioIrqType::Intx) => d.interrupt_evt is Some && d.interrupt_resample_evt is Some
                && self == (HostIrqs {
                intx: d.interrupt_evt,
                resample: d.interrupt_resample_evt,
                ..HostIrqs::off()
            }),
            Some(VfioIrqType::Msi) => d.msi_cap is Some && d.msi_cap->0.irqfd is Some && self == (
            HostIrqs { msi: d.msi_cap->0.irqfd, ..HostIrqs::off() }),
            Some(VfioIrqType::Msix) => self == (HostIrqs { msix: true, ..HostIrqs::off() }),
        }
    }

    /// What is delivered at `step` of a switch: no kind of interrupt is enabled while another one is,
    /// and INTx is unmasked last, when the event that unmasks it is in place.
    spec fn ready_for(self, d: DeviceView, step: IrqStep) -> bool {
        let intx = HostIrqs { intx: d.interrupt_evt, ..HostIrqs::off() };
        let masked = HostIrqs { masked: true, ..intx };
        match step {
            IrqStep::Disable { kind: VfioIrqType::Intx, .. } => self.msi is None && !self.msix,
            IrqStep::Disable { kind: VfioIrqType::Msi, .. } => self == (HostIrqs {
                msi: self.msi,
                ..HostIrqs::off()
            }),
            IrqStep::Disable { kind: VfioIrqType::Msix, .. } => self == (HostIrqs {
                msix: self.msix,
                ..HostIrqs::off()
            }),
            IrqStep::EnableIntx { irqfd, resample, .. } => d.irq_type is None && self
                == HostIrqs::off() && d.interrupt_evt == Some(irqfd) && d.interrupt_resample_evt
                == Some(resample),
            IrqStep::MaskIntx { resample, .. } => d.irq_type is None && self == intx
                && d.interrupt_evt is Some && d.interrupt_resample_evt == Some(resample),
            IrqStep::EnableResample { irqfd, .. } => d.irq_type is None && self == masked
                && d.interrupt_evt is Some && d.interrupt_resample_evt == Some(irqfd),
            IrqStep::UnmaskIntx { .. } => d.irq_type is None && self == (HostIrqs {
                resample: d.interrupt_resample_evt,
                ..masked
            }) && d.interrupt_evt is Some && d.interrupt_resample_evt is Some,
            IrqStep::EnableMsi { irqfd } => d.irq_type is None && self == HostIrqs::off()
                && d.msi_cap is Some && d.msi_cap->0.irqfd == Some(irqfd),
            IrqStep::CollectMsixIrqfds => d.irq_type is None && self == HostIrqs::off(),
            IrqStep::EnableMsix => d.irq_type is None && self == HostIrqs::off(),
            IrqStep::Done => self.agrees_with(d),
        }
    }
}

/// The device, what the host delivers and the step after at most `n` calls, of which `ok` tells which
/// succeed.
pub open spec fn irq_host_run(
    d: DeviceView,
    host: HostIrqs,
    step: IrqStep,
    ok: spec_fn(IrqStep) -> bool,
    n: nat,
) -> (DeviceView, HostIrqs, IrqStep)
    decreases n,
{
    if n == 0 || step == IrqStep::Done {
        (d, host, step)
    } else {
        let (irq_type, next) = d.irq_after(step, ok(step));
        let after = if ok(step) {
            host.called(step)
        } else {
            host
        };
        irq_host_run(DeviceView { irq_type, ..d }, after, next, ok, (n - 1) as nat)
    }
}

proof fn lemma_host_stays_ready(
    d: DeviceView,
    host: HostIrqs,
    step: IrqStep,
    ok: spec_fn(IrqStep) -> bool,
    n: nat,
)
    requires
        host.ready_for(d, step),
        forall|s: IrqStep| s is Disable ==> #[trigger] ok(s),
        irq_rank(step) <= n,
    ensures
        ({
            let (end, after, last) = irq_host_run(d, host, step, ok, n);
            last == IrqStep::Done && after.agrees_with(end)
        }),
    decreases n,
{
    if step != IrqStep::Done {
        law_irq_switch_ends(d, step, ok(step));
        let (irq_type, next) = d.irq_after(step, ok(step));
        let after = if ok(step) {
            host.called(step)
        } else {
            host
        };
        let d1 = DeviceView { irq_type, ..d };
        assert(after.ready_for(d1, next));
        lemma_host_stays_ready(d1, after, next, ok, (n - 1) as nat);
    }
}

/// Where the calls that disable interrupts succeed, a switch ends with the host delivering what the
/// device has in use, through the events of that kind, and nothing else, whichever of the other calls
/// fail. This holds of switching to MSI or MSI-X, of disabling what is in use, of the guest's
/// disabling of MSI or MSI-X while that is in use, and of enabling INTx while nothing is.
pub proof fn law_host_delivers_what_is_in_use(
    d: DeviceView,
    host: HostIrqs,
    step: IrqStep,
    ok: spec_fn(IrqStep) -> bool,
)
    requires
        host.agrees_with(d),
        forall|s: IrqStep| s is Disable ==> #[trigger] ok(s),
        ({
            ||| step == d.msi_switch(Some(VfioMsiChange::Enable))
            ||| step == d.msix_switch(Some(VfioMsiChange::Enable))
            ||| step == d.irqs_disabling(AfterIrqs::StayOff)
            ||| step == d.msi_switch(Some(VfioMsiChange::Disable)) && d.irq_type == Some(
                VfioIrqType::Msi,
            )
            ||| step == d.msix_switch(Some(VfioMsiChange::Disable)) && d.irq_type == Some(
                VfioIrqType::Msix,
            )
            ||| step == d.intx_or_done() && d.irq_type is None
        }),
    ensures
        ({
            let (end, after, last) = irq_host_run(d, host, step, ok, 14);
            last == IrqStep::Done && after.agrees_with(end)
        }),
{
    assert(host.ready_for(d, step));
    lemma_host_stays_ready(d, host, step, ok, 14);
}

/// MSI-X is enabled only right after the events of its vectors were found.
pub proof fn law_msix_is_enabled_with_the_events_found(d: DeviceView, step: IrqStep, ok: bool)
    ensures
        d.irq_after(step, ok).1 == IrqStep::EnableMsix ==> step == IrqStep::CollectMsixIrqfds && ok,
        d.msi_switch(Some(VfioMsiChange::Enable)) != IrqStep::EnableMsix,
        d.msix_switch(Some(VfioMsiChange::Enable)) != IrqStep::EnableMsix,
{
}

/// Where a vector of MSI-X has no event but every call succeeds, a device with INTx falls back to INTx,
/// and another ends with nothing in use.
pub proof fn law_missing_event_falls_back_to_intx(d: DeviceView, ok: spec_fn(IrqStep) -> bool)
    requires
        forall|s: IrqStep| #[trigger] ok(s) <==> !(s is CollectMsixIrqfds),
        d.msix_cap is Some,
    ensures
        irq_run(d, d.msix_switch(Some(VfioMsiChange::Enable)), ok, 14) == (
            DeviceView {
                irq_type: if d.interrupt_evt is Some && d.interrupt_resample_evt is Some {
                    Some(VfioIrqType::Intx)
                } else {
                    None
                },
                ..d
            },
            IrqStep::Done,
        ),
{
    reveal_with_fuel(irq_run, 15);
}

/// Where the host refuses to disable MSI or MSI-X, a switch to another kind is tried all the same.
pub proof fn law_refused_disabling_does_not_stop_a_switch(
    d: DeviceView,
    kind: VfioIrqType,
    irqfd: RawDescriptor,
)
    requires
        kind == VfioIrqType::Msi || kind == VfioIrqType::Msix,
        d.irq_type == Some(kind),
    ensures
        d.irqs_disabling(AfterIrqs::EnableMsi) == (IrqStep::Disable {
            kind,
            then: AfterIrqs::EnableMsi,
        }),
        d.msi_cap is Some && d.msi_cap->0.irqfd == Some(irqfd) ==> d.irq_after(
            IrqStep::Disable { kind, then: AfterIrqs::EnableMsi },
            false,
        ) == (Some(kind), IrqStep::EnableMsi { irqfd }),
        d.msix_cap is Some ==> d.irq_after(
            IrqStep::Disable { kind, then: AfterIrqs::EnableMsix },
            false,
        ) == (Some(kind), IrqStep::CollectMsixIrqfds),
{
}

} // verus!
