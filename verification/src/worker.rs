//! The worker that has a device removed from the VM when the host wants it back.
//!
//! It is started when the guest writes to config space for the first time. It then waits for the
//! host's request, or to be ended.
use vstd::prelude::*;

use crate::device::{DeviceView, VfioPciDevice};
use crate::msi::RawDescriptor;
use crate::text::{push_path, sysfs_dir};

verus! {

/// What to do next to start the worker.
#[derive(Clone, Copy, PartialEq, Eq, Structural, Debug)]
pub enum WorkerStart {
    /// Create the event through which the host requests the device.
    CreateRequestEvent { vm_socket: RawDescriptor },
    /// Let the host request the device through `req_evt`.
    EnableRequestIrq { vm_socket: RawDescriptor, req_evt: RawDescriptor },
    /// Create an event and a second descriptor of it.
    CreateKillEvent { vm_socket: RawDescriptor, req_evt: RawDescriptor },
    /// Start a thread that runs the worker.
    Spawn { vm_socket: RawDescriptor, req_evt: RawDescriptor, kill_evt: RawDescriptor },
    /// Nothing is left to be done.
    Done,
}

impl DeviceView {
    /// Whether the worker can be started, and was not started before.
    pub open spec fn worker_wanted(self) -> bool {
        !self.worker_thread && self.vm_socket_vm is Some
    }

    /// How starting the worker begins. The socket goes to the worker, or is lost if that fails.
    pub open spec fn worker_begun(self) -> (DeviceView, WorkerStart) {
        match self.vm_socket_vm {
            Some(vm_socket) => (
                DeviceView { vm_socket_vm: None, ..self },
                WorkerStart::CreateRequestEvent { vm_socket },
            ),
            None => (self, WorkerStart::Done),
        }
    }
}

impl VfioPciDevice {
    /// Whether the worker can be started, and was not started before.
    pub fn wants_worker(&self) -> (r: bool)
        ensures
            r == self@.worker_wanted(),
    {
        !self.worker_thread && self.vm_socket_vm.is_some()
    }

    /// Begins to start the worker.
    pub fn start_work_thread(&mut self) -> (next: WorkerStart)
        ensures
            (final(self)@, next) == old(self)@.worker_begun(),
    {
        match self.vm_socket_vm.take() {
            Some(vm_socket) => WorkerStart::CreateRequestEvent { vm_socket },
            None => WorkerStart::Done,
        }
    }

    /// Takes the event through which the host requests the device, if it could be created.
    pub fn request_event_created(vm_socket: RawDescriptor, event: Option<RawDescriptor>) -> (next:
        WorkerStart)
        ensures
            next == (match event {
                Some(req_evt) => WorkerStart::EnableRequestIrq { vm_socket, req_evt },
                None => WorkerStart::Done,
            }),
    {
        match event {
            Some(req_evt) => WorkerStart::EnableRequestIrq { vm_socket, req_evt },
            None => WorkerStart::Done,
        }
    }

    /// Takes whether the host accepted the event.
    pub fn request_irq_enabled(vm_socket: RawDescriptor, req_evt: RawDescriptor, ok: bool) -> (next:
        WorkerStart)
        ensures
            next == (if ok {
                WorkerStart::CreateKillEvent { vm_socket, req_evt }
            } else {
                WorkerStart::Done
            }),
    {
        if ok {
            WorkerStart::CreateKillEvent { vm_socket, req_evt }
        } else {
            WorkerStart::Done
        }
    }

    /// Takes the two descriptors of the event that ends the worker, if they could be created: the
    /// one that the device keeps, and the one that the worker waits for.
    pub fn kill_event_created(
        &mut self,
        vm_socket: RawDescriptor,
        req_evt: RawDescriptor,
        events: Option<(RawDescriptor, RawDescriptor)>,
    ) -> (next: WorkerStart)
        ensures
            match events {
                Some((kept, kill_evt)) => final(self)@ == (DeviceView {
                    kill_evt: Some(kept),
                    ..old(self)@
                }) && next == (WorkerStart::Spawn { vm_socket, req_evt, kill_evt }),
                None => final(self)@ == old(self)@ && next == WorkerStart::Done,
            },
    {
        match events {
            Some((kept, kill_evt)) => {
                self.kill_evt = Some(kept);
                WorkerStart::Spawn { vm_socket, req_evt, kill_evt }
            },
            None => WorkerStart::Done,
        }
    }

    /// Takes whether the thread could be started.
    pub fn worker_spawned(&mut self, ok: bool) -> (next: WorkerStart)
        ensures
            final(self)@ == (DeviceView {
                worker_thread: old(self)@.worker_thread || ok,
                ..old(self)@
            }),
            next == WorkerStart::Done,
    {
        if ok {
            self.worker_thread = true;
        }
        WorkerStart::Done
    }
}

/// What the worker waits for.
#[derive(Clone, Copy, PartialEq, Eq, Structural, Debug)]
pub enum WorkerToken {
    /// The host requests the device.
    ReqIrq,
    /// The worker is to end.
    Kill,
}

/// An event that ended a wait.
#[derive(Clone, Copy, PartialEq, Eq, Structural, Debug)]
pub struct WorkerEvent {
    pub token: WorkerToken,
    pub is_readable: bool,
}

/// A request to remove a host device from the VM, or to add it.
pub struct VfioCommand {
    pub vfio_path: String,
    pub add: bool,
}

/// What the worker does next.
#[derive(Clone, Copy, PartialEq, Eq, Structural, Debug)]
pub enum WorkerStep {
    /// Wait for events.
    Wait,
    /// Send the removal request; events from `next` on are not handled yet.
    SendRequest { next: usize },
    /// Receive the answer; events from `next` on are not handled yet.
    ReceiveAnswer { next: usize },
    /// End.
    Stop,
}

/// The worker.
pub struct VfioPciWorker {
    pub vm_socket: RawDescriptor,
    /// The name of the device on the host.
    pub name: String,
}

/// Where the worker goes on when `events` from `from` on are to be handled: at the first of them
/// that is readable.
pub open spec fn handling(events: Seq<WorkerEvent>, from: int) -> WorkerStep
    decreases events.len() - from,
{
    if from < 0 || from >= events.len() {
        WorkerStep::Wait
    } else if !events[from].is_readable {
        handling(events, from + 1)
    } else if events[from].token == WorkerToken::Kill {
        WorkerStep::Stop
    } else {
        WorkerStep::SendRequest { next: (from + 1) as usize }
    }
}

impl VfioPciWorker {
    /// Begins, if what is to be waited for could be set up.
    pub fn run(&self, context_built: bool) -> (step: WorkerStep)
        ensures
            step == (if context_built {
                WorkerStep::Wait
            } else {
                WorkerStep::Stop
            }),
    {
        if context_built {
            WorkerStep::Wait
        } else {
            WorkerStep::Stop
        }
    }

    /// Handles `events` from `from` on.
    pub fn handle_events(&self, events: &[WorkerEvent], from: usize) -> (step: WorkerStep)
        ensures
            step == handling(events@, from as int),
    {
        let mut k: usize = from;
        while k < events.len()
            invariant
                handling(events@, from as int) == handling(events@, k as int),
            decreases events@.len() - k,
        {
            if events[k].is_readable {
                match events[k].token {
                    WorkerToken::ReqIrq => {
                        return WorkerStep::SendRequest { next: k + 1 };
                    },
                    WorkerToken::Kill => {
                        return WorkerStep::Stop;
                    },
                }
            }
            k = k + 1;
        }
        WorkerStep::Wait
    }

    /// Takes the events that ended a wait, or `None` if waiting failed.
    pub fn waited(&self, events: Option<&[WorkerEvent]>) -> (step: WorkerStep)
        ensures
            step == (match events {
                Some(events) => handling(events@, 0),
                None => WorkerStep::Stop,
            }),
    {
        match events {
            Some(events) => self.handle_events(events, 0),
            None => WorkerStep::Stop,
        }
    }

    /// The request to remove the device from the VM.
    pub fn remove_request(&self) -> (command: VfioCommand)
        ensures
            command.vfio_path@ == sysfs_dir(self.name@),
            !command.add,
    {
        VfioCommand {
            vfio_path: push_path("/sys/bus/pci/devices/", self.name.as_str()),
            add: false,
        }
    }

    /// Takes whether the request could be sent.
    pub fn request_sent(&self, ok: bool, events: &[WorkerEvent], next: usize) -> (step: WorkerStep)
        ensures
            step == worker_after(events@, WorkerStep::SendRequest { next }, ok),
    {
        if ok {
            WorkerStep::ReceiveAnswer { next }
        } else {
            self.handle_events(events, next)
        }
    }

    /// Takes whether an answer could be received. The worker ends with the first answer.
    pub fn answer_received(&self, ok: bool, events: &[WorkerEvent], next: usize) -> (step:
        WorkerStep)
        ensures
            step == worker_after(events@, WorkerStep::ReceiveAnswer { next }, ok),
    {
        if ok {
            WorkerStep::Stop
        } else {
            self.handle_events(events, next)
        }
    }
}

/// Once a readable event tells the worker to end, it does not wait again: it ends, or asks for the
/// removal first because of an event before that one.
pub proof fn law_kill_event_is_never_passed_over(events: Seq<WorkerEvent>, from: int, k: int)
    requires
        0 <= from <= k < events.len() <= usize::MAX,
        events[k].is_readable,
        events[k].token == WorkerToken::Kill,
    ensures
        match handling(events, from) {
            WorkerStep::Stop => true,
            WorkerStep::SendRequest { next } => from < next <= k,
            _ => false,
        },
    decreases events.len() - from,
{
    if !events[from].is_readable {
        law_kill_event_is_never_passed_over(events, from + 1, k);
    }
}

/// Where `step` leads among `events`, if what it asks for succeeds or fails as `ok` says.
pub open spec fn worker_after(events: Seq<WorkerEvent>, step: WorkerStep, ok: bool) -> WorkerStep {
    match step {
        WorkerStep::SendRequest { next } => if ok {
            WorkerStep::ReceiveAnswer { next }
        } else {
            handling(events, next as int)
        },
        WorkerStep::ReceiveAnswer { next } => if ok {
            WorkerStep::Stop
        } else {
            handling(events, next as int)
        },
        _ => step,
    }
}

/// The step after `n` more steps among `events`, of which `ok` tells which succeed.
pub open spec fn worker_run(
    events: Seq<WorkerEvent>,
    step: WorkerStep,
    ok: spec_fn(WorkerStep) -> bool,
    n: nat,
) -> WorkerStep
    decreases n,
{
    if n == 0 {
        step
    } else {
        worker_run(events, worker_after(events, step, ok(step)), ok, (n - 1) as nat)
    }
}

/// Whether the `i`-th of `events` ends the worker: it tells the worker to end, or has the removal
/// asked for and answered.
pub open spec fn ends_worker(
    events: Seq<WorkerEvent>,
    i: int,
    ok: spec_fn(WorkerStep) -> bool,
) -> bool {
    let next = (i + 1) as usize;
    &&& events[i].is_readable
    &&& events[i].token == WorkerToken::Kill || (ok(WorkerStep::SendRequest { next }) && ok(
        WorkerStep::ReceiveAnswer { next },
    ))
}

proof fn lemma_batch_from(events: Seq<WorkerEvent>, from: int, ok: spec_fn(WorkerStep) -> bool) -> (n:
    nat)
    requires
        0 <= from <= events.len() <= usize::MAX,
    ensures
        worker_run(events, handling(events, from), ok, n) == (if exists|i: int|
            from <= i < events.len() && #[trigger] ends_worker(events, i, ok) {
            WorkerStep::Stop
        } else {
            WorkerStep::Wait
        }),
    decreases events.len() - from,
{
    reveal_with_fuel(worker_run, 3);
    if from == events.len() {
        0
    } else if ends_worker(events, from, ok) {
        if events[from].token == WorkerToken::Kill {
            0
        } else {
            2
        }
    } else {
        let m = lemma_batch_from(events, from + 1, ok);
        if exists|i: int| from <= i < events.len() && #[trigger] ends_worker(events, i, ok) {
            let i = choose|i: int|
                from <= i < events.len() && #[trigger] ends_worker(events, i, ok);
            assert(from + 1 <= i < events.len());
        }
        if !events[from].is_readable {
            m
        } else if ok(WorkerStep::SendRequest { next: (from + 1) as usize }) {
            2 + m
        } else {
            1 + m
        }
    }
}

/// All events of a wait are handled: the worker ends if one of them ends it, and waits again if none
/// does.
pub proof fn law_all_events_are_handled(
    events: Seq<WorkerEvent>,
    ok: spec_fn(WorkerStep) -> bool,
)
    requires
        events.len() <= usize::MAX,
    ensures
        exists|n: nat|
            #[trigger] worker_run(events, handling(events, 0), ok, n) == (if exists|i: int|
                0 <= i < events.len() && #[trigger] ends_worker(events, i, ok) {
                WorkerStep::Stop
            } else {
                WorkerStep::Wait
            }),
{
    let n = lemma_batch_from(events, 0, ok);
}

} // verus!
