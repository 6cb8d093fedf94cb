//! What a host is asked for to boot or to restore a machine, by the configuration alone.
use crate::builder::boot_and_run_plan;
use crate::laws::{
    asked, at_most_once, is_only_planned, is_run, law_never_asked, law_run_keeps_build, never, run,
};
use crate::model::{is_build_of, BuildModel};
use crate::recipe::{
    boot_plan, boot_timer_plan, debug_plan, devices_plan, guest_plan, launch_plan, machine_plan,
    passthrough_plan, platform_plan, restore_task, resume_plan, snapshot_plan, start_plan, tasks_if,
};
use crate::recipe_laws::{
    asked_exactly_once, boot_and_run_build, boot_build, can_boot, can_restore, law_boot_is_in_order,
    law_restoration_is_in_order, lemma_asked_once, lemma_boot_build, lemma_snapshot_build,
    snapshot_build,
};
use crate::resources::{Arch, BlockDevice, BuildInput, DeviceHandle, SnapshotInfo, VmResources};
use crate::task::{
    Action, AttachAction, Capabilities, Outcome, RestoreAction, SerialAction, Task, VfioAction,
    VmmAction,
};
use crate::vfio::vfio_plan;
use crate::virtio::{block_plan, blocks_plan, nets_plan, virtio_plan};
use crate::vmm::{create_vmm_plan, port_io_plan, vmgenid_plan};
use vstd::prelude::*;

verus! {

/// The step is one of creating the monitor of a machine of the architecture, with as many vCPUs and the
/// capabilities asked for on that behalf. Setting up the PCI bus is not among those.
pub open spec fn monitor_takes(
    arch: Arch,
    vcpu_count: u8,
    capabilities: Capabilities,
    action: VmmAction,
) -> bool {
    match action {
        VmmAction::OpenKvm { capabilities: found } => found == capabilities,
        VmmAction::CreateVcpus { count } => count == vcpu_count,
        VmmAction::SetStdoutNonblocking
        | VmmAction::Serial(_)
        | VmmAction::CloneExitEvent
        | VmmAction::CreatePortIoManager
        | VmmAction::RegisterPortIoDevices => arch == Arch::X86_64,
        VmmAction::Pci(_) => false,
        _ => true,
    }
}

/// The tasks hold the action once where it is wanted, and not at all otherwise.
pub open spec fn holds_as(wanted: bool, action: Action, tasks: Seq<Task>) -> bool {
    &&& at_most_once(action, tasks)
    &&& wanted <==> tasks.contains(Task::Host(action))
}

proof fn lemma_holds_in_turn(
    action: Action,
    a: bool,
    first: Seq<Task>,
    b: bool,
    rest: Seq<Task>,
)
    requires
        holds_as(a, action, first),
        holds_as(b, action, rest),
        !(a && b),
    ensures
        holds_as(a || b, action, first + rest),
{
    let all = first + rest;
    let task = Task::Host(action);
    assert forall|i: int, j: int| 0 <= i < j < all.len() implies #[trigger] all[i] != task
        || #[trigger] all[j] != task by {
        if j < first.len() {
            assert(all[i] == first[i] && all[j] == first[j]);
        } else if i >= first.len() {
            assert(all[i] == rest[i - first.len()] && all[j] == rest[j - first.len()]);
        } else {
            assert(all[i] == first[i] && all[j] == rest[j - first.len()]);
        }
    }
    if all.contains(task) {
        let k = choose|k: int| 0 <= k < all.len() && all[k] == task;
        if k < first.len() {
            assert(first[k] == task);
        } else {
            assert(rest[k - first.len()] == task);
        }
    }
    if a {
        let k = choose|k: int| 0 <= k < first.len() && first[k] == task;
        assert(all[k] == task);
    }
    if b {
        let k = choose|k: int| 0 <= k < rest.len() && rest[k] == task;
        assert(all[first.len() + k] == task);
    }
}

proof fn lemma_holds_if(action: Action, wanted: bool, condition: bool, tasks: Seq<Task>)
    requires
        holds_as(wanted, action, tasks),
    ensures
        holds_as(condition && wanted, action, tasks_if(condition, tasks)),
{
}

proof fn lemma_port_io_holds(action: Action)
    ensures
        holds_as(
            action matches Action::Vmm(action) && (action is SetStdoutNonblocking || action is Serial
                || action is CloneExitEvent || action is CreatePortIoManager),
            action,
            port_io_plan(),
        ),
{
    let plan = port_io_plan();
    assert(plan.len() == 7);
    assert(plan[0] == Task::Host(Action::Vmm(VmmAction::SetStdoutNonblocking)));
    assert(plan[1] == Task::Host(
        Action::Vmm(VmmAction::Serial(SerialAction::CreateInterruptEvent)),
    ));
    assert(plan[2] == Task::Host(
        Action::Vmm(VmmAction::Serial(SerialAction::CreateKickStdinEvent)),
    ));
    assert(plan[3] == Task::Host(Action::Vmm(VmmAction::Serial(SerialAction::CreateDevice))));
    assert(plan[4] == Task::Host(Action::Vmm(VmmAction::Serial(SerialAction::Subscribe))));
    assert(plan[5] == Task::Host(Action::Vmm(VmmAction::CloneExitEvent)));
    assert(plan[6] == Task::Host(Action::Vmm(VmmAction::CreatePortIoManager)));
}

proof fn lemma_core_holds(vcpu_count: u8, capabilities: Capabilities, action: Action)
    ensures
        ({
            let core = seq![
                Task::Host(Action::Vmm(VmmAction::OpenKvm { capabilities })),
                Task::Host(Action::Vmm(VmmAction::CreateVm)),
                Task::Host(Action::Vmm(VmmAction::CheckMemory)),
                Task::Host(Action::Vmm(VmmAction::InitMemory)),
                Task::Host(Action::Vmm(VmmAction::CreateVcpus { count: vcpu_count })),
                Task::Host(Action::Vmm(VmmAction::CreateResourceAllocator)),
                Task::Host(Action::Vmm(VmmAction::CreateDeviceManagers)),
            ];
            holds_as(
                action matches Action::Vmm(action) && !(action is AssembleVmm) && monitor_takes(
                    Arch::Aarch64,
                    vcpu_count,
                    capabilities,
                    action,
                ),
                action,
                core,
            )
        }),
{
    let core = seq![
        Task::Host(Action::Vmm(VmmAction::OpenKvm { capabilities })),
        Task::Host(Action::Vmm(VmmAction::CreateVm)),
        Task::Host(Action::Vmm(VmmAction::CheckMemory)),
        Task::Host(Action::Vmm(VmmAction::InitMemory)),
        Task::Host(Action::Vmm(VmmAction::CreateVcpus { count: vcpu_count })),
        Task::Host(Action::Vmm(VmmAction::CreateResourceAllocator)),
        Task::Host(Action::Vmm(VmmAction::CreateDeviceManagers)),
    ];
    assert(core[0] == Task::Host(Action::Vmm(VmmAction::OpenKvm { capabilities })));
    assert(core[1] == Task::Host(Action::Vmm(VmmAction::CreateVm)));
    assert(core[2] == Task::Host(Action::Vmm(VmmAction::CheckMemory)));
    assert(core[3] == Task::Host(Action::Vmm(VmmAction::InitMemory)));
    assert(core[4] == Task::Host(Action::Vmm(VmmAction::CreateVcpus { count: vcpu_count })));
    assert(core[5] == Task::Host(Action::Vmm(VmmAction::CreateResourceAllocator)));
    assert(core[6] == Task::Host(Action::Vmm(VmmAction::CreateDeviceManagers)));
}

proof fn lemma_monitor_holds(
    arch: Arch,
    pci: bool,
    vcpu_count: u8,
    capabilities: Capabilities,
    action: Action,
)
    ensures
        holds_as(
            action matches Action::Vmm(action) && monitor_takes(
                arch,
                vcpu_count,
                capabilities,
                action,
            ),
            action,
            create_vmm_plan(arch, pci, vcpu_count, capabilities),
        ),
{
    let is_x86_64 = arch == Arch::X86_64;
    let core = seq![
        Task::Host(Action::Vmm(VmmAction::OpenKvm { capabilities })),
        Task::Host(Action::Vmm(VmmAction::CreateVm)),
        Task::Host(Action::Vmm(VmmAction::CheckMemory)),
        Task::Host(Action::Vmm(VmmAction::InitMemory)),
        Task::Host(Action::Vmm(VmmAction::CreateVcpus { count: vcpu_count })),
        Task::Host(Action::Vmm(VmmAction::CreateResourceAllocator)),
        Task::Host(Action::Vmm(VmmAction::CreateDeviceManagers)),
    ];
    let ports = tasks_if(is_x86_64, port_io_plan());
    let bus = tasks_if(pci, seq![Task::PlanPci]);
    let registered = Task::Host(Action::Vmm(VmmAction::RegisterPortIoDevices));
    let register = tasks_if(is_x86_64, seq![registered]);
    let assembled = Task::Host(Action::Vmm(VmmAction::AssembleVmm));
    let assemble = seq![assembled];
    let of_core = action matches Action::Vmm(action) && !(action is AssembleVmm) && monitor_takes(
        Arch::Aarch64,
        vcpu_count,
        capabilities,
        action,
    );
    let of_ports = action matches Action::Vmm(action) && (action is SetStdoutNonblocking
        || action is Serial || action is CloneExitEvent || action is CreatePortIoManager);
    let of_register = Task::Host(action) == registered;
    let of_assemble = Task::Host(action) == assembled;
    lemma_core_holds(vcpu_count, capabilities, action);
    lemma_port_io_holds(action);
    lemma_holds_if(action, of_ports, is_x86_64, port_io_plan());
    assert(holds_as(false, action, bus));
    assert(seq![registered][0] == registered);
    assert(holds_as(of_register, action, seq![registered]));
    lemma_holds_if(action, of_register, is_x86_64, seq![registered]);
    assert(assemble[0] == assembled);
    assert(holds_as(of_assemble, action, assemble));
    lemma_holds_in_turn(action, of_core, core, is_x86_64 && of_ports, ports);
    lemma_holds_in_turn(action, of_core || (is_x86_64 && of_ports), core + ports, false, bus);
    lemma_holds_in_turn(
        action,
        of_core || (is_x86_64 && of_ports),
        core + ports + bus,
        is_x86_64 && of_register,
        register,
    );
    lemma_holds_in_turn(
        action,
        of_core || (is_x86_64 && of_ports) || (is_x86_64 && of_register),
        core + ports + bus + register,
        of_assemble,
        assemble,
    );
    assert(create_vmm_plan(arch, pci, vcpu_count, capabilities) =~= core + ports + bus + register
        + assemble);
}

/// The step is one of those that attaching a virtio device starts with, on a machine with or without a
/// PCI bus.
pub open spec fn starts_attaching(bus: bool, is_vhost_user: bool, action: AttachAction) -> bool {
    match action {
        AttachAction::Subscribe => true,
        AttachAction::NextDeviceBdf => bus,
        AttachAction::RegisterMmio { is_vhost_user: found } => !bus && found == is_vhost_user,
        _ => false,
    }
}

proof fn lemma_virtio_holds(device: DeviceHandle, bus: bool, is_vhost_user: bool, action: Action)
    ensures
        holds_as(
            action matches Action::Attach(found, step) && found == device && starts_attaching(
                bus,
                is_vhost_user,
                step,
            ),
            action,
            virtio_plan(device, bus, is_vhost_user),
        ),
{
    let plan = virtio_plan(device, bus, is_vhost_user);
    assert(plan.len() == 2);
    assert(plan[0] == Task::Host(Action::Attach(device, AttachAction::Subscribe)));
    assert(plan[1] == Task::Host(
        Action::Attach(
            device,
            if bus {
                AttachAction::NextDeviceBdf
            } else {
                AttachAction::RegisterMmio { is_vhost_user }
            },
        ),
    ));
}

proof fn lemma_blocks_hold(blocks: Seq<BlockDevice>, bus: bool, action: Action)
    requires
        blocks.len() <= usize::MAX,
    ensures
        holds_as(
            action matches Action::Attach(DeviceHandle::Block(i), step) && i < blocks.len()
                && starts_attaching(bus, blocks[i as int].is_vhost_user, step),
            action,
            blocks_plan(blocks, bus),
        ),
    decreases blocks.len(),
{
    if blocks.len() > 0 {
        let before = blocks.drop_last();
        let n = before.len();
        let last = blocks.last();
        let attach = virtio_plan(DeviceHandle::Block(n as usize), bus, last.is_vhost_user);
        let root = seq![Task::RootArguments(n as usize)];
        let of_last = action matches Action::Attach(DeviceHandle::Block(i), step) && i == n
            && starts_attaching(bus, last.is_vhost_user, step);
        let of_before = action matches Action::Attach(DeviceHandle::Block(i), step) && i < n
            && starts_attaching(bus, before[i as int].is_vhost_user, step);
        lemma_blocks_hold(before, bus, action);
        lemma_virtio_holds(DeviceHandle::Block(n as usize), bus, last.is_vhost_user, action);
        assert(holds_as(false, action, root));
        lemma_holds_in_turn(action, false, root, of_last, attach);
        assert(block_plan(blocks.len() - 1, last, bus) == if last.root_device {
            root + attach
        } else {
            attach
        });
        lemma_holds_in_turn(
            action,
            of_before,
            blocks_plan(before, bus),
            of_last,
            block_plan(blocks.len() - 1, last, bus),
        );
    }
}

proof fn lemma_nets_hold(count: nat, bus: bool, action: Action)
    requires
        count <= usize::MAX,
    ensures
        holds_as(
            action matches Action::Attach(DeviceHandle::Net(i), step) && i < count
                && starts_attaching(bus, false, step),
            action,
            nets_plan(count, bus),
        ),
    decreases count,
{
    if count > 0 {
        let n = (count - 1) as nat;
        let device = DeviceHandle::Net(n as usize);
        let of_last = action matches Action::Attach(found, step) && found == device
            && starts_attaching(bus, false, step);
        let of_before = action matches Action::Attach(DeviceHandle::Net(i), step) && i < n
            && starts_attaching(bus, false, step);
        lemma_nets_hold(n, bus, action);
        lemma_virtio_holds(device, bus, false, action);
        lemma_holds_in_turn(
            action,
            of_before,
            nets_plan(n, bus),
            of_last,
            virtio_plan(device, bus, false),
        );
    }
}

/// The configuration has the virtio device, under its position where there can be more of its kind.
pub open spec fn is_configured(resources: VmResources, device: DeviceHandle) -> bool {
    match device {
        DeviceHandle::Balloon => resources.balloon is Some,
        DeviceHandle::Block(i) => i < resources.block@.len(),
        DeviceHandle::Net(i) => i < resources.net@.len(),
        DeviceHandle::Vsock => resources.vsock is Some,
        DeviceHandle::Entropy => resources.entropy is Some,
    }
}

/// The device is a block device that a process outside the monitor serves.
pub open spec fn is_served_outside(resources: VmResources, device: DeviceHandle) -> bool {
    device matches DeviceHandle::Block(i) && resources.block@[i as int].is_vhost_user
}

proof fn lemma_devices_hold(resources: VmResources, bus: bool, action: Action)
    ensures
        holds_as(
            action matches Action::Attach(device, step) && is_configured(resources, device)
                && starts_attaching(bus, is_served_outside(resources, device), step),
            action,
            devices_plan(resources, bus),
        ),
{
    let balloon = tasks_if(
        resources.balloon is Some,
        virtio_plan(DeviceHandle::Balloon, bus, false),
    );
    let blocks = blocks_plan(resources.block@, bus);
    let nets = nets_plan(resources.net@.len(), bus);
    let vsock = tasks_if(resources.vsock is Some, virtio_plan(DeviceHandle::Vsock, bus, false));
    let entropy = tasks_if(
        resources.entropy is Some,
        virtio_plan(DeviceHandle::Entropy, bus, false),
    );
    let of_balloon = action matches Action::Attach(DeviceHandle::Balloon, step)
        && starts_attaching(bus, false, step);
    let of_blocks = action matches Action::Attach(DeviceHandle::Block(i), step) && i
        < resources.block@.len() && starts_attaching(
        bus,
        resources.block@[i as int].is_vhost_user,
        step,
    );
    let of_nets = action matches Action::Attach(DeviceHandle::Net(i), step) && i
        < resources.net@.len() && starts_attaching(bus, false, step);
    let of_vsock = action matches Action::Attach(DeviceHandle::Vsock, step) && starts_attaching(
        bus,
        false,
        step,
    );
    let of_entropy = action matches Action::Attach(DeviceHandle::Entropy, step)
        && starts_attaching(bus, false, step);
    assert(resources.block@.len() == resources.block.len());
    assert(resources.net@.len() == resources.net.len());
    lemma_virtio_holds(DeviceHandle::Balloon, bus, false, action);
    lemma_virtio_holds(DeviceHandle::Vsock, bus, false, action);
    lemma_virtio_holds(DeviceHandle::Entropy, bus, false, action);
    lemma_blocks_hold(resources.block@, bus, action);
    lemma_nets_hold(resources.net@.len(), bus, action);
    let a = resources.balloon is Some && of_balloon;
    let d = resources.vsock is Some && of_vsock;
    let e = resources.entropy is Some && of_entropy;
    lemma_holds_in_turn(action, a, balloon, of_blocks, blocks);
    lemma_holds_in_turn(action, a || of_blocks, balloon + blocks, of_nets, nets);
    lemma_holds_in_turn(action, a || of_blocks || of_nets, balloon + blocks + nets, d, vsock);
    lemma_holds_in_turn(
        action,
        a || of_blocks || of_nets || d,
        balloon + blocks + nets + vsock,
        e,
        entropy,
    );
}

/// The machine has a PCI bus: as configured, and otherwise by default.
pub open spec fn has_bus(resources: VmResources, default: bool) -> bool {
    match resources.pci_config {
        Some(pci) => pci.enabled,
        None => default,
    }
}

/// The number of the devices that are passed through, where there is a list of them.
pub open spec fn passthrough_count(resources: VmResources) -> Option<nat> {
    match resources.pci_config {
        Some(pci) => match pci.vfio_devices {
            Some(devices) => Some(devices@.len()),
            None => None,
        },
        None => None,
    }
}

/// The action is one that booting a machine of the configuration takes. What only follows from what the
/// host reports is not among those.
pub open spec fn boot_takes(resources: VmResources, runs: bool, action: Action) -> bool {
    match action {
        Action::AllocateGuestMemory
        | Action::LoadKernel
        | Action::LoadInitrd
        | Action::GetCpuTemplate
        | Action::Vmgenid(_)
        | Action::ConfigureSystem
        | Action::StartVcpus
        | Action::ApplySeccompFilter
        | Action::SubscribeVmm => true,
        Action::Vmm(action) => monitor_takes(
            resources.arch,
            resources.vcpu_count,
            Capabilities::CpuTemplate,
            action,
        ),
        Action::AttachDebugInfo | Action::CloneVcpuFds => resources.gdb is Some,
        Action::StartGdb => resources.gdb matches Some(gdb) && gdb.socket,
        Action::AttachBootTimer => resources.boot_timer,
        Action::Attach(device, action) => is_configured(resources, device) && starts_attaching(
            has_bus(resources, true),
            is_served_outside(resources, device),
            action,
        ),
        Action::CreatePassthroughDevice => passthrough_count(resources) is Some,
        Action::Vfio(i, action) => passthrough_count(resources) matches Some(count) && i < count
            && action is NextDeviceId,
        Action::ResumeVm => runs,
        Action::Legacy(_) | Action::Restore(_) => false,
    }
}

proof fn lemma_machine_holds(resources: VmResources, bus: bool, action: Action)
    ensures
        holds_as(
            match action {
                Action::AllocateGuestMemory
                | Action::LoadKernel
                | Action::LoadInitrd
                | Action::GetCpuTemplate => true,
                Action::Vmm(action) => monitor_takes(
                    resources.arch,
                    resources.vcpu_count,
                    Capabilities::CpuTemplate,
                    action,
                ),
                Action::AttachDebugInfo | Action::CloneVcpuFds => resources.gdb is Some,
                _ => false,
            },
            action,
            machine_plan(resources, bus),
        ),
{
    let guest = guest_plan();
    let vmm = create_vmm_plan(
        resources.arch,
        bus,
        resources.vcpu_count,
        Capabilities::CpuTemplate,
    );
    let debug = debug_plan();
    let of_guest = action is AllocateGuestMemory || action is LoadKernel || action is LoadInitrd
        || action is GetCpuTemplate;
    let of_vmm = action matches Action::Vmm(step) && monitor_takes(
        resources.arch,
        resources.vcpu_count,
        Capabilities::CpuTemplate,
        step,
    );
    let of_debug = action is AttachDebugInfo || action is CloneVcpuFds;
    assert(guest[0] == Task::Host(Action::AllocateGuestMemory));
    assert(guest[1] == Task::Host(Action::LoadKernel));
    assert(guest[2] == Task::Host(Action::LoadInitrd));
    assert(guest[3] == Task::Host(Action::GetCpuTemplate));
    assert(holds_as(of_guest, action, guest));
    assert(debug[0] == Task::Host(Action::AttachDebugInfo));
    assert(debug[1] == Task::Host(Action::CloneVcpuFds));
    assert(holds_as(of_debug, action, debug));
    lemma_monitor_holds(
        resources.arch,
        bus,
        resources.vcpu_count,
        Capabilities::CpuTemplate,
        action,
    );
    lemma_holds_if(action, of_debug, resources.gdb is Some, debug);
    lemma_holds_in_turn(action, of_guest, guest, of_vmm, vmm);
    lemma_holds_in_turn(
        action,
        of_guest || of_vmm,
        guest + vmm,
        resources.gdb is Some && of_debug,
        tasks_if(resources.gdb is Some, debug),
    );
}

proof fn lemma_launch_holds(resources: VmResources, action: Action)
    ensures
        holds_as(
            match action {
                Action::Vmgenid(_)
                | Action::ConfigureSystem
                | Action::StartVcpus
                | Action::ApplySeccompFilter
                | Action::SubscribeVmm => true,
                Action::StartGdb => resources.gdb matches Some(gdb) && gdb.socket,
                _ => false,
            },
            action,
            launch_plan(resources),
        ),
{
    let vmgenid = vmgenid_plan();
    let configure = seq![Task::Host(Action::ConfigureSystem)];
    let gdb = seq![Task::Host(Action::StartGdb)];
    let served = resources.gdb is Some && resources.gdb->0.socket;
    let start = start_plan();
    let of_vmgenid = action is Vmgenid;
    let of_configure = action is ConfigureSystem;
    let of_gdb = action is StartGdb;
    let of_start = action is StartVcpus || action is ApplySeccompFilter || action is SubscribeVmm;
    if let Action::Vmgenid(step) = action {
        assert(vmgenid[0] == Task::Host(action) || vmgenid[1] == Task::Host(action));
    }
    assert(holds_as(of_vmgenid, action, vmgenid));
    assert(configure[0] == Task::Host(Action::ConfigureSystem));
    assert(holds_as(of_configure, action, configure));
    assert(gdb[0] == Task::Host(Action::StartGdb));
    assert(holds_as(of_gdb, action, gdb));
    assert(start[1] == Task::Host(Action::StartVcpus));
    assert(start[3] == Task::Host(Action::ApplySeccompFilter));
    assert(start[4] == Task::Host(Action::SubscribeVmm));
    assert(holds_as(of_start, action, start));
    lemma_holds_if(action, of_gdb, served, gdb);
    lemma_holds_in_turn(action, of_vmgenid, vmgenid, of_configure, configure);
    lemma_holds_in_turn(
        action,
        of_vmgenid || of_configure,
        vmgenid + configure,
        served && of_gdb,
        tasks_if(served, gdb),
    );
    lemma_holds_in_turn(
        action,
        of_vmgenid || of_configure || (served && of_gdb),
        vmgenid + configure + tasks_if(served, gdb),
        of_start,
        start,
    );
}

proof fn lemma_passthrough_holds(resources: VmResources, action: Action)
    ensures
        holds_as(
            match action {
                Action::CreatePassthroughDevice => passthrough_count(resources) is Some,
                Action::Vfio(i, step) => passthrough_count(resources) matches Some(count) && i < count
                    && step is NextDeviceId,
                _ => false,
            },
            action,
            passthrough_plan(resources),
        ),
{
    let plan = passthrough_plan(resources);
    if resources.has_vfio() {
        let count = resources.pci_config->0.vfio_devices->0@.len();
        assert(count == resources.pci_config->0.vfio_devices->0.len());
        assert(plan == vfio_plan(count));
        assert(plan[0] == Task::Host(Action::CreatePassthroughDevice));
        if let Action::Vfio(i, VfioAction::NextDeviceId) = action {
            if i < count {
                assert(plan[i + 1] == Task::Host(action));
            }
        }
    }
}

pub(crate) proof fn lemma_boot_holds(resources: VmResources, action: Action)
    ensures
        holds_as(boot_takes(resources, false, action), action, boot_plan(resources)),
        holds_as(boot_takes(resources, true, action), action, boot_and_run_plan(resources)),
{
    let bus = resources.spec_pci_enabled(true);
    let machine = machine_plan(resources, bus);
    let timer = boot_timer_plan(resources);
    let devices = devices_plan(resources, bus);
    let vfio = passthrough_plan(resources);
    let legacy = platform_plan(resources);
    let launch = launch_plan(resources);
    let resume = seq![Task::Host(Action::ResumeVm)];
    let takes = boot_takes(resources, false, action);
    let a = takes && (action is AllocateGuestMemory || action is LoadKernel || action is LoadInitrd
        || action is GetCpuTemplate || action is Vmm || action is AttachDebugInfo
        || action is CloneVcpuFds);
    let b = takes && action is AttachBootTimer;
    let c = takes && action is Attach;
    let d = takes && (action is CreatePassthroughDevice || action is Vfio);
    let e = takes && !a && !b && !c && !d;
    lemma_machine_holds(resources, bus, action);
    lemma_devices_hold(resources, bus, action);
    lemma_passthrough_holds(resources, action);
    lemma_launch_holds(resources, action);
    if resources.boot_timer {
        assert(timer[0] == Task::Host(Action::AttachBootTimer));
    }
    assert(holds_as(b, action, timer));
    assert(holds_as(false, action, legacy));
    assert(resume[0] == Task::Host(Action::ResumeVm));
    assert(holds_as(action is ResumeVm, action, resume));
    lemma_holds_in_turn(action, a, machine, b, timer);
    lemma_holds_in_turn(action, a || b, machine + timer, c, devices);
    lemma_holds_in_turn(action, a || b || c, machine + timer + devices, d, vfio);
    lemma_holds_in_turn(
        action,
        a || b || c || d,
        machine + timer + devices + vfio,
        false,
        legacy,
    );
    lemma_holds_in_turn(
        action,
        a || b || c || d,
        machine + timer + devices + vfio + legacy,
        e,
        launch,
    );
    lemma_holds_in_turn(action, takes, boot_plan(resources), action is ResumeVm, resume);
    assert(boot_and_run_plan(resources) =~= boot_plan(resources) + resume);
}

/// The action is one that restoring a machine of the configuration from the snapshot takes. What only
/// follows from what the host reports is not among those.
pub open spec fn restoration_takes(
    resources: VmResources,
    snapshot: SnapshotInfo,
    action: Action,
) -> bool {
    match action {
        Action::Vmm(action) => monitor_takes(
            resources.arch,
            resources.vcpu_count,
            Capabilities::Snapshot,
            action,
        ),
        Action::Restore(action) => match action {
            RestoreAction::CheckTscScaling { khz } => resources.arch == Arch::X86_64
                && snapshot.vcpu_tsc_khz@.len() > 0 && snapshot.vcpu_tsc_khz@[0] == Some(khz),
            RestoreAction::SetTsc { .. } | RestoreAction::RestoreVcpu { .. } => false,
            RestoreAction::RestoreMmioDevices { restored_from_file } => restored_from_file
                == !snapshot.has_uffd,
            _ => true,
        },
        Action::StartVcpus | Action::ApplySeccompFilter | Action::SubscribeVmm => true,
        _ => false,
    }
}

pub(crate) proof fn lemma_restoration_holds(resources: VmResources, snapshot: SnapshotInfo, action: Action)
    ensures
        holds_as(
            restoration_takes(resources, snapshot, action),
            action,
            snapshot_plan(resources, snapshot),
        ),
{
    let bus = resources.spec_pci_enabled(false);
    let vmm = create_vmm_plan(resources.arch, bus, resources.vcpu_count, Capabilities::Snapshot);
    let is_saved = resources.arch == Arch::X86_64 && snapshot.vcpu_tsc_khz@.len() > 0
        && snapshot.vcpu_tsc_khz@[0] is Some;
    let check = Action::Restore(
        RestoreAction::CheckTscScaling { khz: snapshot.vcpu_tsc_khz@[0]->0 },
    );
    let tsc = tasks_if(is_saved, seq![Task::Host(check)]);
    let vcpus = seq![Task::PlanVcpuRestore];
    let resume = resume_plan(!snapshot.has_uffd);
    let takes = restoration_takes(resources, snapshot, action);
    let a = takes && action is Vmm;
    let b = is_saved && action == check;
    let c = takes && !a && !b;
    lemma_monitor_holds(resources.arch, bus, resources.vcpu_count, Capabilities::Snapshot, action);
    assert(seq![Task::Host(check)][0] == Task::Host(check));
    assert(holds_as(action == check, action, seq![Task::Host(check)]));
    lemma_holds_if(action, action == check, is_saved, seq![Task::Host(check)]);
    assert(holds_as(false, action, vcpus));
    assert(resume[0] == restore_task(RestoreAction::RestoreVm));
    assert(resume[1] == restore_task(RestoreAction::RestoreBootSource));
    assert(resume[2] == restore_task(
        RestoreAction::RestoreMmioDevices { restored_from_file: !snapshot.has_uffd },
    ));
    assert(resume[3] == restore_task(RestoreAction::EmulateSerialInit));
    assert(resume[4] == restore_task(RestoreAction::RestoreAcpiDevices));
    assert(resume[5] == restore_task(RestoreAction::NotifyVmgenid));
    assert(resume[7] == Task::Host(Action::StartVcpus));
    assert(resume[8] == Task::Host(Action::SubscribeVmm));
    assert(resume[10] == Task::Host(Action::ApplySeccompFilter));
    assert(holds_as(c, action, resume));
    lemma_holds_in_turn(action, a, vmm, b, tsc);
    lemma_holds_in_turn(action, a || b, vmm + tsc, false, vcpus);
    lemma_holds_in_turn(action, a || b, vmm + tsc + vcpus, c, resume);
    assert(snapshot_plan(resources, snapshot) =~= vmm + tsc + vcpus + resume);
}

proof fn lemma_run_holds(
    wanted: bool,
    action: Action,
    input: BuildInput,
    build: BuildModel,
    outcomes: Seq<Outcome>,
)
    requires
        is_only_planned(action),
        is_build_of(input, build),
        build.verdict is Running,
        is_run(input, build, outcomes),
        holds_as(wanted, action, build.todo),
    ensures
        asked(input, build, outcomes).contains(action) ==> wanted,
        wanted && run(input, build, outcomes).verdict is Built ==> asked_exactly_once(
            action,
            asked(input, build, outcomes),
        ),
{
    if !wanted {
        assert(never(action, build.todo)) by {
            assert forall|i: int| 0 <= i < build.todo.len() implies #[trigger] build.todo[i]
                != Task::Host(action) by {
                assert(build.todo.contains(build.todo[i]));
            }
        }
        law_never_asked(action, input, build, outcomes);
    } else if run(input, build, outcomes).verdict is Built {
        lemma_asked_once(action, input, build, outcomes);
    }
}

/// Booting a machine asks the host for what the configuration takes and for nothing else, as far as
/// that does not follow from what the host reports, and succeeds only with each of it asked for once.
pub proof fn law_boot_is_as_configured(
    input: BuildInput,
    build: BuildModel,
    outcomes: Seq<Outcome>,
    runs: bool,
    action: Action,
)
    requires
        can_boot(input),
        build == if runs {
            boot_and_run_build(input)
        } else {
            boot_build(input)
        },
        is_run(input, build, outcomes),
        is_only_planned(action),
    ensures
        asked(input, build, outcomes).contains(action) ==> boot_takes(
            input.resources,
            runs,
            action,
        ),
        boot_takes(input.resources, runs, action) && run(input, build, outcomes).verdict is Built
            ==> asked_exactly_once(action, asked(input, build, outcomes)),
{
    lemma_boot_build(input);
    lemma_boot_holds(input.resources, action);
    law_boot_is_in_order(input);
    lemma_run_holds(boot_takes(input.resources, runs, action), action, input, build, outcomes);
}

/// Restoring a machine asks the host for what the configuration and the snapshot take and for nothing
/// else, as far as that does not follow from what the host reports, and succeeds only with each of it
/// asked for once.
pub proof fn law_restoration_is_as_saved(input: BuildInput, outcomes: Seq<Outcome>, action: Action)
    requires
        can_restore(input),
        is_run(input, snapshot_build(input), outcomes),
        is_only_planned(action),
    ensures
        asked(input, snapshot_build(input), outcomes).contains(action) ==> restoration_takes(
            input.resources,
            input.source->Snapshot_0,
            action,
        ),
        restoration_takes(input.resources, input.source->Snapshot_0, action) && run(
            input,
            snapshot_build(input),
            outcomes,
        ).verdict is Built ==> asked_exactly_once(
            action,
            asked(input, snapshot_build(input), outcomes),
        ),
{
    lemma_snapshot_build(input);
    lemma_restoration_holds(input.resources, input.source->Snapshot_0, action);
    law_restoration_is_in_order(input);
    lemma_run_holds(
        restoration_takes(input.resources, input.source->Snapshot_0, action),
        action,
        input,
        snapshot_build(input),
        outcomes,
    );
}

/// A machine that boots has the vCPUs that are configured, whatever else it has: the host is never asked
/// to create another number of them, and is asked once where booting succeeds.
pub proof fn law_booted_machine_has_configured_vcpus(
    input: BuildInput,
    build: BuildModel,
    outcomes: Seq<Outcome>,
)
    requires
        can_boot(input),
        build == boot_build(input) || build == boot_and_run_build(input),
        is_run(input, build, outcomes),
    ensures
        forall|i: int|
            0 <= i < outcomes.len() ==> (#[trigger] asked(input, build, outcomes)[i]
                matches Action::Vmm(VmmAction::CreateVcpus { count }) ==> count
                == input.resources.vcpu_count),
        run(input, build, outcomes).verdict is Built ==> asked_exactly_once(
            Action::Vmm(VmmAction::CreateVcpus { count: input.resources.vcpu_count }),
            asked(input, build, outcomes),
        ),
{
    let runs = build == boot_and_run_build(input);
    lemma_boot_build(input);
    law_run_keeps_build(input, build, outcomes);
    assert forall|i: int| 0 <= i < outcomes.len() implies (#[trigger] asked(input, build, outcomes)[i]
        matches Action::Vmm(VmmAction::CreateVcpus { count }) ==> count
        == input.resources.vcpu_count) by {
        let action = asked(input, build, outcomes)[i];
        if action matches Action::Vmm(VmmAction::CreateVcpus { .. }) {
            law_boot_is_as_configured(input, build, outcomes, runs, action);
            assert(asked(input, build, outcomes).contains(action));
        }
    }
    law_boot_is_as_configured(
        input,
        build,
        outcomes,
        runs,
        Action::Vmm(VmmAction::CreateVcpus { count: input.resources.vcpu_count }),
    );
}

/// A restored machine has the vCPUs that are configured, however many were saved: the host is never
/// asked to create another number of them, and is asked once where restoring succeeds.
pub proof fn law_restored_machine_has_configured_vcpus(input: BuildInput, outcomes: Seq<Outcome>)
    requires
        can_restore(input),
        is_run(input, snapshot_build(input), outcomes),
    ensures
        forall|i: int|
            0 <= i < outcomes.len() ==> (#[trigger] asked(input, snapshot_build(input), outcomes)[i]
                matches Action::Vmm(VmmAction::CreateVcpus { count }) ==> count
                == input.resources.vcpu_count),
        run(input, snapshot_build(input), outcomes).verdict is Built ==> asked_exactly_once(
            Action::Vmm(VmmAction::CreateVcpus { count: input.resources.vcpu_count }),
            asked(input, snapshot_build(input), outcomes),
        ),
{
    let build = snapshot_build(input);
    lemma_snapshot_build(input);
    law_run_keeps_build(input, build, outcomes);
    assert forall|i: int| 0 <= i < outcomes.len() implies (#[trigger] asked(input, build, outcomes)[i]
        matches Action::Vmm(VmmAction::CreateVcpus { count }) ==> count
        == input.resources.vcpu_count) by {
        let action = asked(input, build, outcomes)[i];
        if action matches Action::Vmm(VmmAction::CreateVcpus { .. }) {
            law_restoration_is_as_saved(input, outcomes, action);
            assert(asked(input, build, outcomes).contains(action));
        }
    }
    law_restoration_is_as_saved(
        input,
        outcomes,
        Action::Vmm(VmmAction::CreateVcpus { count: input.resources.vcpu_count }),
    );
}

/// A machine that was saved with the frequency of the time stamp counter of its first vCPU, however many
/// vCPUs were saved, is restored only with the host asked, once, whether that frequency needs scaling.
/// The host is asked for no other frequency, and for none where the first vCPU was saved without one or
/// on machines that have no such counter.
pub proof fn law_saved_frequency_is_checked(input: BuildInput, outcomes: Seq<Outcome>, khz: u32)
    requires
        can_restore(input),
        is_run(input, snapshot_build(input), outcomes),
    ensures
        ({
            let saved = input.source->Snapshot_0.vcpu_tsc_khz@;
            let check = Action::Restore(RestoreAction::CheckTscScaling { khz });
            let all = asked(input, snapshot_build(input), outcomes);
            &&& input.resources.arch == Arch::X86_64 && saved.len() > 0 && saved[0] == Some(khz)
                && run(input, snapshot_build(input), outcomes).verdict is Built
                ==> asked_exactly_once(check, all)
            &&& all.contains(check) ==> input.resources.arch == Arch::X86_64 && saved.len() > 0
                && saved[0] == Some(khz)
        }),
{
    law_restoration_is_as_saved(
        input,
        outcomes,
        Action::Restore(RestoreAction::CheckTscScaling { khz }),
    );
}

/// Devices of a restored machine count as restored from a file where and only where page faults are not
/// served from user space.
pub proof fn law_devices_are_restored_from_file(
    input: BuildInput,
    outcomes: Seq<Outcome>,
    restored_from_file: bool,
)
    requires
        can_restore(input),
        is_run(input, snapshot_build(input), outcomes),
        run(input, snapshot_build(input), outcomes).verdict is Built,
    ensures
        asked(input, snapshot_build(input), outcomes).contains(
            Action::Restore(RestoreAction::RestoreMmioDevices { restored_from_file }),
        ) <==> restored_from_file != input.source->Snapshot_0.has_uffd,
{
    law_restoration_is_as_saved(
        input,
        outcomes,
        Action::Restore(RestoreAction::RestoreMmioDevices { restored_from_file }),
    );
}

/// Creating a monitor takes each of its steps once: as many vCPUs are created as were asked for and no
/// other number, on every architecture, with or without a PCI bus; KVM is asked for the capabilities on
/// the behalf that was given; the port I/O devices are there on x86_64 and nowhere else; and a bus is
/// planned where and only where there is to be one.
pub proof fn law_monitor_is_created_as_asked_for(
    arch: Arch,
    pci: bool,
    vcpu_count: u8,
    capabilities: Capabilities,
    count: u8,
    found: Capabilities,
    serial: SerialAction,
)
    ensures
        ({
            let plan = create_vmm_plan(arch, pci, vcpu_count, capabilities);
            let create = Action::Vmm(VmmAction::CreateVcpus { count });
            let open = Action::Vmm(VmmAction::OpenKvm { capabilities: found });
            let set_up = Action::Vmm(VmmAction::Serial(serial));
            &&& at_most_once(create, plan) && at_most_once(open, plan) && at_most_once(set_up, plan)
            &&& plan.contains(Task::Host(create)) <==> count == vcpu_count
            &&& plan.contains(Task::Host(open)) <==> found == capabilities
            &&& plan.contains(Task::Host(set_up)) <==> arch == Arch::X86_64
            &&& plan.contains(Task::Host(Action::Vmm(VmmAction::RegisterPortIoDevices))) <==> arch
                == Arch::X86_64
            &&& plan.contains(Task::Host(Action::Vmm(VmmAction::AssembleVmm)))
            &&& plan.contains(Task::PlanPci) <==> pci
        }),
{
    let plan = create_vmm_plan(arch, pci, vcpu_count, capabilities);
    lemma_monitor_holds(
        arch,
        pci,
        vcpu_count,
        capabilities,
        Action::Vmm(VmmAction::CreateVcpus { count }),
    );
    lemma_monitor_holds(
        arch,
        pci,
        vcpu_count,
        capabilities,
        Action::Vmm(VmmAction::OpenKvm { capabilities: found }),
    );
    lemma_monitor_holds(
        arch,
        pci,
        vcpu_count,
        capabilities,
        Action::Vmm(VmmAction::Serial(serial)),
    );
    lemma_monitor_holds(
        arch,
        pci,
        vcpu_count,
        capabilities,
        Action::Vmm(VmmAction::RegisterPortIoDevices),
    );
    lemma_monitor_holds(
        arch,
        pci,
        vcpu_count,
        capabilities,
        Action::Vmm(VmmAction::AssembleVmm),
    );
    assert(port_io_plan().len() == 7);
    if pci {
        let k = if arch == Arch::X86_64 {
            14
        } else {
            7
        };
        assert(plan[k] == Task::PlanPci);
    } else {
        assert forall|k: int| 0 <= k < plan.len() implies #[trigger] plan[k] != Task::PlanPci by {
            if arch == Arch::X86_64 && 7 <= k < 14 {
                assert(plan[k] == port_io_plan()[k - 7]);
            }
        }
    }
}

} // verus!
