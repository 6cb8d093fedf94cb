//! The order in which a microVM is put together.
use crate::resources::{Arch, DeviceHandle, SnapshotInfo, ThreadCategory, VmResources};
use crate::task::{Action, Capabilities, RestoreAction, Task};
use crate::vfio::{add_vfio_devices, vfio_plan};
use crate::virtio::{
    attach_balloon_device, attach_block_devices, attach_entropy_device, attach_net_devices,
    attach_unixsock_vsock_device, blocks_plan, nets_plan, virtio_plan,
};
use crate::vmm::{
    attach_boot_timer_device, attach_vmgenid_device, create_vmm_and_vcpus, create_vmm_plan,
    vmgenid_plan,
};
use vstd::prelude::*;

verus! {

/// The tasks, where the condition holds.
pub open spec fn tasks_if(condition: bool, tasks: Seq<Task>) -> Seq<Task> {
    if condition {
        tasks
    } else {
        seq![]
    }
}

/// What comes before the monitor: guest memory, with the kernel and the initial file system in it,
/// and the features of the processor.
pub open spec fn guest_plan() -> Seq<Task> {
    seq![
        Task::Host(Action::AllocateGuestMemory),
        Task::Host(Action::LoadKernel),
        Task::Host(Action::LoadInitrd),
        Task::Host(Action::GetCpuTemplate),
    ]
}

/// What a debugger needs of the vCPUs.
pub open spec fn debug_plan() -> Seq<Task> {
    seq![Task::Host(Action::AttachDebugInfo), Task::Host(Action::CloneVcpuFds)]
}

/// What comes after the devices: the vCPUs are started, paused, each under the filter for vCPUs, and
/// the monitor puts itself under its own filter before it is plugged in.
pub open spec fn start_plan() -> Seq<Task> {
    seq![
        Task::RequireFilter(ThreadCategory::Vcpu),
        Task::Host(Action::StartVcpus),
        Task::RequireFilter(ThreadCategory::Vmm),
        Task::Host(Action::ApplySeccompFilter),
        Task::Host(Action::SubscribeVmm),
    ]
}

/// The virtio devices of a configuration, in the order in which they are attached.
pub open spec fn devices_plan(resources: VmResources, pci: bool) -> Seq<Task> {
    tasks_if(resources.balloon is Some, virtio_plan(DeviceHandle::Balloon, pci, false)) + blocks_plan(
        resources.block@,
        pci,
    ) + nets_plan(resources.net@.len(), pci) + tasks_if(
        resources.vsock is Some,
        virtio_plan(DeviceHandle::Vsock, pci, false),
    ) + tasks_if(resources.entropy is Some, virtio_plan(DeviceHandle::Entropy, pci, false))
}

/// What comes before the devices: guest memory, the monitor with its vCPUs, and what a debugger
/// needs of those.
pub open spec fn machine_plan(resources: VmResources, pci: bool) -> Seq<Task> {
    guest_plan() + create_vmm_plan(
        resources.arch,
        pci,
        resources.vcpu_count,
        Capabilities::CpuTemplate,
    ) + tasks_if(resources.gdb is Some, debug_plan())
}

/// The first device that is attached, so that its address stays the one that guests expect.
pub open spec fn boot_timer_plan(resources: VmResources) -> Seq<Task> {
    tasks_if(resources.boot_timer, seq![Task::Host(Action::AttachBootTimer)])
}

/// The devices of the host that are passed through.
pub open spec fn passthrough_plan(resources: VmResources) -> Seq<Task> {
    tasks_if(resources.has_vfio(), vfio_plan(resources.vfio_devices().len()))
}

/// The legacy devices, on the machines that have them attached like other devices.
pub open spec fn platform_plan(resources: VmResources) -> Seq<Task> {
    tasks_if(resources.arch == Arch::Aarch64, seq![Task::PlanLegacyDevices])
}

/// What comes after the devices that are configured.
pub open spec fn launch_plan(resources: VmResources) -> Seq<Task> {
    vmgenid_plan() + seq![Task::Host(Action::ConfigureSystem)] + tasks_if(
        resources.gdb is Some && resources.gdb->0.socket,
        seq![Task::Host(Action::StartGdb)],
    ) + start_plan()
}

/// The steps of building a microVM that boots a kernel.
pub open spec fn boot_plan(resources: VmResources) -> Seq<Task> {
    let pci = resources.spec_pci_enabled(true);
    machine_plan(resources, pci) + boot_timer_plan(resources) + devices_plan(resources, pci)
        + passthrough_plan(resources) + platform_plan(resources) + launch_plan(resources)
}

/// Plans to attach the virtio devices of a configuration.
fn plan_devices(resources: &VmResources, pci: bool) -> (plan: Vec<Task>)
    ensures
        plan@ == devices_plan(*resources, pci),
{
    let mut plan: Vec<Task> = Vec::new();
    if resources.balloon.is_some() {
        let mut attach: Vec<Task> = attach_balloon_device(pci);
        plan.append(&mut attach);
    }
    let mut blocks: Vec<Task> = attach_block_devices(&resources.block, pci);
    plan.append(&mut blocks);
    let mut nets: Vec<Task> = attach_net_devices(&resources.net, pci);
    plan.append(&mut nets);
    if resources.vsock.is_some() {
        let mut attach: Vec<Task> = attach_unixsock_vsock_device(pci);
        plan.append(&mut attach);
    }
    if resources.entropy.is_some() {
        let mut attach: Vec<Task> = attach_entropy_device(pci);
        plan.append(&mut attach);
    }
    assert(plan@ =~= devices_plan(*resources, pci));
    plan
}

/// Plans what comes before the devices.
fn plan_machine(resources: &VmResources, pci: bool) -> (plan: Vec<Task>)
    ensures
        plan@ == machine_plan(*resources, pci),
{
    let mut plan: Vec<Task> = Vec::new();
    plan.push(Task::Host(Action::AllocateGuestMemory));
    plan.push(Task::Host(Action::LoadKernel));
    plan.push(Task::Host(Action::LoadInitrd));
    plan.push(Task::Host(Action::GetCpuTemplate));
    assert(plan@ =~= guest_plan());
    let mut vmm: Vec<Task> = create_vmm_and_vcpus(
        resources.arch,
        pci,
        resources.vcpu_count,
        Capabilities::CpuTemplate,
    );
    plan.append(&mut vmm);
    let ghost before = plan@;
    if resources.gdb.is_some() {
        plan.push(Task::Host(Action::AttachDebugInfo));
        plan.push(Task::Host(Action::CloneVcpuFds));
    }
    assert(plan@ =~= before + tasks_if(resources.gdb is Some, debug_plan()));
    plan
}

/// Plans what comes after the devices that are configured.
fn plan_launch(resources: &VmResources) -> (plan: Vec<Task>)
    ensures
        plan@ == launch_plan(*resources),
{
    let mut plan: Vec<Task> = attach_vmgenid_device();
    plan.push(Task::Host(Action::ConfigureSystem));
    match &resources.gdb {
        Some(gdb) => {
            if gdb.socket {
                plan.push(Task::Host(Action::StartGdb));
            }
        },
        None => {},
    }
    plan.push(Task::RequireFilter(ThreadCategory::Vcpu));
    plan.push(Task::Host(Action::StartVcpus));
    plan.push(Task::RequireFilter(ThreadCategory::Vmm));
    plan.push(Task::Host(Action::ApplySeccompFilter));
    plan.push(Task::Host(Action::SubscribeVmm));
    assert(plan@ =~= launch_plan(*resources));
    plan
}

/// Plans a microVM that boots a kernel.
pub fn plan_boot(resources: &VmResources) -> (plan: Vec<Task>)
    ensures
        plan@ == boot_plan(*resources),
{
    let pci: bool = resources.pci_enabled(true);
    let mut plan: Vec<Task> = plan_machine(resources, pci);
    if resources.boot_timer {
        plan.push(attach_boot_timer_device());
    }
    let mut devices: Vec<Task> = plan_devices(resources, pci);
    plan.append(&mut devices);
    match &resources.pci_config {
        Some(pci_config) => {
            match &pci_config.vfio_devices {
                Some(vfio_devices) => {
                    let mut vfio: Vec<Task> = add_vfio_devices(vfio_devices);
                    plan.append(&mut vfio);
                },
                None => {},
            }
        },
        None => {},
    }
    match resources.arch {
        Arch::X86_64 => {},
        Arch::Aarch64 => {
            plan.push(Task::PlanLegacyDevices);
        },
    }
    let mut launch: Vec<Task> = plan_launch(resources);
    plan.append(&mut launch);
    assert(plan@ =~= boot_plan(*resources));
    plan
}

/// The frequency of the time stamp counter of the first saved vCPU, on a machine that can scale it.
pub open spec fn saved_tsc(arch: Arch, snapshot: SnapshotInfo) -> Option<u32> {
    if arch == Arch::X86_64 && snapshot.vcpu_tsc_khz@.len() > 0 {
        snapshot.vcpu_tsc_khz@[0]
    } else {
        None
    }
}

/// The step `action` of restoring a machine.
pub open spec fn restore_task(action: RestoreAction) -> Task {
    Task::Host(Action::Restore(action))
}

/// What is restored once the vCPUs are: the machine, its devices, and the word to the guest that it
/// was resumed from a snapshot, which comes before the vCPUs so that little of it runs unaware.
/// The monitor puts itself under its filter in the end.
pub open spec fn resume_plan(restored_from_file: bool) -> Seq<Task> {
    seq![
        restore_task(RestoreAction::RestoreVm),
        restore_task(RestoreAction::RestoreBootSource),
        restore_task(RestoreAction::RestoreMmioDevices { restored_from_file }),
        restore_task(RestoreAction::EmulateSerialInit),
        restore_task(RestoreAction::RestoreAcpiDevices),
        restore_task(RestoreAction::NotifyVmgenid),
        Task::RequireFilter(ThreadCategory::Vcpu),
        Task::Host(Action::StartVcpus),
        Task::Host(Action::SubscribeVmm),
        Task::RequireFilter(ThreadCategory::Vmm),
        Task::Host(Action::ApplySeccompFilter),
    ]
}

/// The steps of building a microVM from a snapshot. The machine counts as restored from a file
/// unless page faults are served from user space.
pub open spec fn snapshot_plan(resources: VmResources, snapshot: SnapshotInfo) -> Seq<Task> {
    create_vmm_plan(
        resources.arch,
        resources.spec_pci_enabled(false),
        resources.vcpu_count,
        Capabilities::Snapshot,
    ) + (match saved_tsc(resources.arch, snapshot) {
        Some(khz) => seq![restore_task(RestoreAction::CheckTscScaling { khz })],
        None => seq![],
    }) + seq![Task::PlanVcpuRestore] + resume_plan(!snapshot.has_uffd)
}

/// Plans a microVM from a snapshot.
pub fn plan_snapshot(resources: &VmResources, snapshot: &SnapshotInfo) -> (plan: Vec<Task>)
    ensures
        plan@ == snapshot_plan(*resources, *snapshot),
{
    let mut plan: Vec<Task> = create_vmm_and_vcpus(
        resources.arch,
        resources.pci_enabled(false),
        resources.vcpu_count,
        Capabilities::Snapshot,
    );
    match resources.arch {
        Arch::X86_64 => {
            if snapshot.vcpu_tsc_khz.len() > 0 {
                if let Some(khz) = snapshot.vcpu_tsc_khz[0] {
                    plan.push(Task::Host(Action::Restore(RestoreAction::CheckTscScaling { khz })));
                }
            }
        },
        Arch::Aarch64 => {},
    }
    plan.push(Task::PlanVcpuRestore);
    plan.push(Task::Host(Action::Restore(RestoreAction::RestoreVm)));
    plan.push(Task::Host(Action::Restore(RestoreAction::RestoreBootSource)));
    plan.push(
        Task::Host(
            Action::Restore(
                RestoreAction::RestoreMmioDevices { restored_from_file: !snapshot.has_uffd },
            ),
        ),
    );
    plan.push(Task::Host(Action::Restore(RestoreAction::EmulateSerialInit)));
    plan.push(Task::Host(Action::Restore(RestoreAction::RestoreAcpiDevices)));
    plan.push(Task::Host(Action::Restore(RestoreAction::NotifyVmgenid)));
    plan.push(Task::RequireFilter(ThreadCategory::Vcpu));
    plan.push(Task::Host(Action::StartVcpus));
    plan.push(Task::Host(Action::SubscribeVmm));
    plan.push(Task::RequireFilter(ThreadCategory::Vmm));
    plan.push(Task::Host(Action::ApplySeccompFilter));
    assert(plan@ =~= snapshot_plan(*resources, *snapshot));
    plan
}

/// The number of vCPUs that are restored: those that exist and have a state.
pub open spec fn restored_vcpus(vcpus: nat, states: nat) -> nat {
    if vcpus < states {
        vcpus
    } else {
        states
    }
}

/// The steps of restoring `count` vCPUs, each from the state at its own position.
pub open spec fn vcpu_restore_plan(count: nat) -> Seq<Task> {
    Seq::new(
        count,
        |i: int| restore_task(RestoreAction::RestoreVcpu { index: i as usize }),
    )
}

/// Plans to restore each vCPU for which there is a state.
pub fn restore_vcpus(vcpus: usize, states: usize) -> (plan: Vec<Task>)
    ensures
        plan@ == vcpu_restore_plan(restored_vcpus(vcpus as nat, states as nat)),
{
    let count: usize = if vcpus < states {
        vcpus
    } else {
        states
    };
    let mut plan: Vec<Task> = Vec::new();
    let mut i: usize = 0;
    while i < count
        invariant
            i <= count,
            plan@ == vcpu_restore_plan(i as nat),
        decreases count - i,
    {
        plan.push(Task::Host(Action::Restore(RestoreAction::RestoreVcpu { index: i })));
        i = i + 1;
        assert(plan@ =~= vcpu_restore_plan(i as nat));
    }
    plan
}

/// The steps of setting the time stamp counter of each of `vcpus` vCPUs, where that is required.
pub open spec fn tsc_plan(required: bool, vcpus: nat, khz: u32) -> Seq<Task> {
    if required {
        Seq::new(vcpus, |i: int| restore_task(RestoreAction::SetTsc { vcpu: i as usize, khz }))
    } else {
        seq![]
    }
}

/// Plans to set the time stamp counter of each vCPU, where that is required.
pub fn scale_tsc(required: bool, vcpus: usize, khz: u32) -> (plan: Vec<Task>)
    ensures
        plan@ == tsc_plan(required, vcpus as nat, khz),
{
    let mut plan: Vec<Task> = Vec::new();
    if required {
        let mut i: usize = 0;
        while i < vcpus
            invariant
                i <= vcpus,
                plan@ == tsc_plan(true, i as nat, khz),
            decreases vcpus - i,
        {
            plan.push(Task::Host(Action::Restore(RestoreAction::SetTsc { vcpu: i, khz })));
            i = i + 1;
            assert(plan@ =~= tsc_plan(true, i as nat, khz));
        }
    }
    plan
}

/// As many vCPUs are restored as both exist and have a state, each from the state at its own position
/// and in the order of the positions.
pub proof fn law_each_vcpu_has_its_state(vcpus: usize, states: usize)
    ensures
        ({
            let plan = vcpu_restore_plan(restored_vcpus(vcpus as nat, states as nat));
            &&& plan.len() <= vcpus
            &&& plan.len() <= states
            &&& plan.len() == vcpus || plan.len() == states
            &&& forall|index: usize|
                index < plan.len() ==> #[trigger] plan[index as int] == Task::Host(
                    Action::Restore(RestoreAction::RestoreVcpu { index }),
                )
        }),
{
}

/// Where that is required, the counter of each vCPU is set to the same frequency, in the order of the
/// vCPUs; otherwise none is set.
pub proof fn law_each_counter_is_set(required: bool, vcpus: usize, khz: u32)
    ensures
        !required ==> tsc_plan(required, vcpus as nat, khz).len() == 0,
        required ==> tsc_plan(required, vcpus as nat, khz).len() == vcpus && forall|vcpu: usize|
            vcpu < vcpus ==> #[trigger] tsc_plan(required, vcpus as nat, khz)[vcpu as int]
                == Task::Host(Action::Restore(RestoreAction::SetTsc { vcpu, khz })),
{
}

/// The frequency that a machine is restored with is that of the first vCPU that was saved, however many
/// were, and where it was saved; only x86_64 machines have one.
pub proof fn law_first_frequency_counts(arch: Arch, snapshot: SnapshotInfo, other: SnapshotInfo)
    ensures
        arch == Arch::X86_64 && snapshot.vcpu_tsc_khz@.len() > 0 ==> saved_tsc(arch, snapshot)
            == snapshot.vcpu_tsc_khz@[0],
        snapshot.vcpu_tsc_khz@.len() == 0 || arch == Arch::Aarch64 ==> saved_tsc(arch, snapshot) is None,
        snapshot.vcpu_tsc_khz@.len() > 0 && other.vcpu_tsc_khz@.len() > 0
            && snapshot.vcpu_tsc_khz@[0] == other.vcpu_tsc_khz@[0] ==> saved_tsc(arch, snapshot)
            == saved_tsc(arch, other),
{
}

} // verus!
