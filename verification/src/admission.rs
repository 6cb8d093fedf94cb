//! Which tasks a build can begin with.
use crate::layout::has_device_area;
use crate::model::{
    can_begin, creates_vcpus, is_attach_action_of, is_pci_action_of, is_prepared, is_saved_tsc,
    is_task_of, is_vmm_action_of, needs_memory, needs_vcpus,
};
use crate::resources::{Arch, BuildInput, DeviceHandle, Source, VmResources};
use crate::task::{Action, AttachAction, PciAction, RestoreAction, Task, VfioAction, VmmAction};
use vstd::prelude::*;

verus! {

fn is_boot(input: &BuildInput) -> (boot: bool)
    ensures
        boot == (input.source is Boot),
{
    match &input.source {
        Source::Boot => true,
        Source::Snapshot(_) => false,
    }
}

fn holds_device(resources: &VmResources, device: DeviceHandle) -> (found: bool)
    ensures
        found == resources.has_device(device),
{
    match device {
        DeviceHandle::Balloon => resources.balloon.is_some(),
        DeviceHandle::Block(i) => i < resources.block.len(),
        DeviceHandle::Net(i) => i < resources.net.len(),
        DeviceHandle::Vsock => resources.vsock.is_some(),
        DeviceHandle::Entropy => resources.entropy.is_some(),
    }
}

fn vfio_count(resources: &VmResources) -> (count: usize)
    ensures
        count == resources.vfio_devices().len(),
{
    match &resources.pci_config {
        Some(pci) => match &pci.vfio_devices {
            Some(devices) => devices.len(),
            None => 0,
        },
        None => 0,
    }
}

fn saved_tsc_is(input: &BuildInput, khz: u32) -> (same: bool)
    ensures
        same == is_saved_tsc(*input, khz),
{
    match (&input.source, input.resources.arch) {
        (Source::Snapshot(snapshot), Arch::X86_64) => snapshot.vcpu_tsc_khz.len() > 0
            && match snapshot.vcpu_tsc_khz[0] {
            Some(saved) => saved == khz,
            None => false,
        },
        _ => false,
    }
}

fn allows_vmm(input: &BuildInput, action: VmmAction) -> (allowed: bool)
    ensures
        allowed == is_vmm_action_of(*input, action),
{
    match action {
        VmmAction::SetStdoutNonblocking
        | VmmAction::Serial(_)
        | VmmAction::CloneExitEvent
        | VmmAction::CreatePortIoManager
        | VmmAction::RegisterPortIoDevices => input.resources.arch == Arch::X86_64,
        VmmAction::Pci(_) => input.pci_enabled(),
        _ => true,
    }
}

fn allows_pci(input: &BuildInput, action: PciAction) -> (allowed: bool)
    ensures
        allowed == is_pci_action_of(*input, action),
{
    match action {
        PciAction::InsertIoBus { .. } => input.pci_enabled() && input.resources.arch
            == Arch::X86_64,
        _ => input.pci_enabled(),
    }
}

fn allows_attach(input: &BuildInput, action: AttachAction) -> (allowed: bool)
    ensures
        allowed == is_attach_action_of(*input, action),
{
    match action {
        AttachAction::Subscribe => true,
        AttachAction::RegisterMmio { .. } => is_boot(input) && !input.pci_enabled(),
        AttachAction::Pci(action) => allows_pci(input, action),
        _ => input.pci_enabled(),
    }
}

/// Whether the task is one that a build from the input can work on.
pub fn can_work_on(input: &BuildInput, task: Task) -> (possible: bool)
    ensures
        possible == is_task_of(*input, task),
{
    match task {
        Task::Host(Action::Vmm(action)) => allows_vmm(input, action),
        Task::Host(Action::Attach(device, action)) => holds_device(&input.resources, device)
            && allows_attach(input, action),
        Task::Host(Action::Vfio(i, action)) => i < vfio_count(&input.resources) && match action {
            VfioAction::NextDeviceId => true,
            VfioAction::Pci(action) => allows_pci(input, action),
            _ => input.pci_enabled(),
        },
        Task::Host(Action::Legacy(_)) => is_boot(input) && input.resources.arch == Arch::Aarch64,
        Task::Host(Action::Restore(action)) => !is_boot(input) && match action {
            RestoreAction::CheckTscScaling { khz } => saved_tsc_is(input, khz),
            RestoreAction::SetTsc { khz, .. } => saved_tsc_is(input, khz),
            _ => true,
        },
        Task::Host(_) => true,
        Task::RootArguments(i) => is_boot(input) && i < input.resources.block.len()
            && input.resources.block[i].root_device,
        Task::PlanPci => input.pci_enabled(),
        Task::PlanLegacyDevices => is_boot(input) && input.resources.arch == Arch::Aarch64,
        Task::PlanVcpuRestore => !is_boot(input),
        Task::RequireFilter(_) => true,
    }
}

fn depends_on_memory(task: Task) -> (dependent: bool)
    ensures
        dependent == needs_memory(task),
{
    match task {
        Task::PlanPci => true,
        Task::Host(Action::Vfio(_, VfioAction::NextDeviceId)) => true,
        _ => false,
    }
}

fn depends_on_vcpus(task: Task) -> (dependent: bool)
    ensures
        dependent == needs_vcpus(task),
{
    match task {
        Task::PlanVcpuRestore => true,
        Task::Host(Action::Restore(RestoreAction::CheckTscScaling { .. })) => true,
        _ => false,
    }
}

/// Whether a build from the input can begin to work on the tasks.
pub fn can_begin_build(input: &BuildInput, tasks: &Vec<Task>) -> (possible: bool)
    ensures
        possible == can_begin(*input, tasks@),
{
    let has_source: bool = match &input.source {
        Source::Boot => input.resources.boot_config.is_some(),
        Source::Snapshot(snapshot) => !input.pci_enabled() || has_device_area(
            snapshot.last_addr,
            &input.resources.layout,
        ),
    };
    if !has_source {
        return false;
    }
    let boot: bool = is_boot(input);
    let mut has_memory: bool = !boot;
    let mut has_vcpus: bool = false;
    let mut k: usize = 0;
    while k < tasks.len()
        invariant
            k <= tasks@.len(),
            boot == (input.source is Boot),
            has_memory == (!boot || exists|j: int|
                0 <= j < k && #[trigger] tasks@[j] == Task::Host(Action::AllocateGuestMemory)),
            has_vcpus == (exists|j: int| 0 <= j < k && creates_vcpus(#[trigger] tasks@[j])),
            forall|j: int| 0 <= j < k ==> is_task_of(*input, #[trigger] tasks@[j]),
            forall|j: int| 0 <= j < k ==> #[trigger] is_prepared(*input, tasks@, j),
        decreases tasks@.len() - k,
    {
        let task: Task = tasks[k];
        if !can_work_on(input, task) {
            assert(!is_task_of(*input, tasks@[k as int]));
            return false;
        }
        if (depends_on_memory(task) && !has_memory) || (depends_on_vcpus(task) && !has_vcpus) {
            assert(!is_prepared(*input, tasks@, k as int));
            return false;
        }
        match task {
            Task::Host(Action::AllocateGuestMemory) => {
                has_memory = true;
            },
            Task::Host(Action::Vmm(VmmAction::CreateVcpus { .. })) => {
                has_vcpus = true;
            },
            _ => {},
        }
        assert(is_prepared(*input, tasks@, k as int));
        assert(tasks@[k as int] == task);
        k = k + 1;
    }
    true
}

} // verus!
