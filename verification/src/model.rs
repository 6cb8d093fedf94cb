//! What a build is at each moment, and what becomes of it as the host reports the outcomes of its
//! work.
use crate::cmdline::{contains_text, model, CmdlineModel};
use crate::failure::can_fail;
use crate::layout::{leaves_device_area, lemma_no_memory_leaves_device_area, spec_pci_layout};
use crate::pci::{bars_plan, mapping_plan};
use crate::recipe::{
    boot_plan, boot_timer_plan, debug_plan, devices_plan, guest_plan, launch_plan, machine_plan,
    passthrough_plan, platform_plan, restored_vcpus, saved_tsc, snapshot_plan, tasks_if, tsc_plan,
    vcpu_restore_plan,
};
use crate::resources::{
    is_one_of, Arch, BuildInput, DeviceHandle, MemoryRegion, Source, ThreadCategory,
};
use crate::root::root_arguments;
use crate::task::{
    Action, AttachAction, Capabilities, LegacyAction, Outcome, PciAction, PciBarConfiguration,
    RestoreAction, Task, VfioAction, VmmAction,
};
use crate::vfio::{vfio_device_plan, vfio_task};
use crate::virtio::{
    attach_task, bdf_plan, block_plan, blocks_plan, has_notify_addresses, nets_plan, notify_plan,
    virtio_plan,
};
use crate::vmm::{create_vmm_plan, legacy_plan, pci_setup_plan};
use linux_loader::cmdline::Error as CmdlineError;
use vstd::prelude::*;

verus! {

/// Where a build stands.
pub enum Verdict {
    /// There is work left.
    Running,
    /// Everything was done.
    Built,
    /// The host failed at an action.
    HostFailed(Action, String),
    /// An argument was refused by the kernel command line.
    BadCmdline(CmdlineError),
    /// The kernel command line cannot be handed to a kernel.
    UnreadableCmdline,
    /// There is no seccomp filter for the threads of a category.
    MissingFilter(ThreadCategory),
}

/// What a build has come to.
#[verifier::ext_equal]
pub struct BuildModel {
    /// What is left to do, in order.
    pub todo: Seq<Task>,
    /// The kernel command line of a machine that boots a kernel.
    pub cmdline: Option<CmdlineModel>,
    /// The last address of guest memory.
    pub last_addr: u64,
    /// The regions of guest memory.
    pub regions: Seq<MemoryRegion>,
    /// The number of vCPUs that exist.
    pub vcpus: usize,
    pub verdict: Verdict,
}

/// Whether the kernel is told of a console.
pub open spec fn has_console(text: Seq<char>) -> bool {
    contains_text(text, "console="@)
}

/// The build once it has done all that it can do without the host.
pub open spec fn settle(input: BuildInput, build: BuildModel) -> BuildModel
    decreases build.todo.len(),
{
    if build.todo.len() == 0 {
        BuildModel { verdict: Verdict::Built, ..build }
    } else {
        let rest = build.todo.drop_first();
        match build.todo[0] {
            Task::Host(_) => build,
            Task::RootArguments(i) => {
                let (cmdline, err) = root_arguments(
                    build.cmdline->0,
                    input.resources.block@[i as int],
                );
                match err {
                    Some(err) => BuildModel {
                        cmdline: Some(cmdline),
                        verdict: Verdict::BadCmdline(err),
                        ..build
                    },
                    None => settle(input, BuildModel { todo: rest, cmdline: Some(cmdline), ..build }),
                }
            },
            Task::PlanPci => BuildModel {
                todo: pci_setup_plan(spec_pci_layout(build.last_addr, input.resources.layout))
                    + rest,
                ..build
            },
            Task::PlanLegacyDevices => match build.cmdline->0.text() {
                Some(text) => BuildModel { todo: legacy_plan(has_console(text)) + rest, ..build },
                None => BuildModel { verdict: Verdict::UnreadableCmdline, ..build },
            },
            Task::PlanVcpuRestore => {
                let count = restored_vcpus(
                    build.vcpus as nat,
                    input.source->Snapshot_0.vcpu_tsc_khz@.len(),
                );
                if count == 0 {
                    settle(input, BuildModel { todo: rest, ..build })
                } else {
                    BuildModel { todo: vcpu_restore_plan(count) + rest, ..build }
                }
            },
            Task::RequireFilter(category) => if is_one_of(
                category.spec_name(),
                input.seccomp_filters@,
            ) {
                settle(input, BuildModel { todo: rest, ..build })
            } else {
                BuildModel { verdict: Verdict::MissingFilter(category), ..build }
            },
        }
    }
}

/// The action allocates the base address registers of a device.
pub open spec fn allocates_bars(action: Action) -> bool {
    ||| action matches Action::Attach(_, AttachAction::Pci(PciAction::AllocateBars { .. }))
    ||| action matches Action::Vfio(_, VfioAction::Pci(PciAction::AllocateBars { .. }))
}

/// The action adds to the kernel command line.
pub open spec fn writes_cmdline(action: Action) -> bool {
    ||| action matches Action::Attach(_, AttachAction::RegisterMmio { .. })
    ||| action == Action::Legacy(LegacyAction::AddSerialToCmdline)
}

/// The action is done without telling anything.
pub open spec fn tells_nothing(action: Action) -> bool {
    &&& action != Action::AllocateGuestMemory
    &&& !(action matches Action::Vmm(VmmAction::CreateVcpus { .. }))
    &&& !(action matches Action::Attach(_, AttachAction::NextDeviceBdf))
    &&& !(action matches Action::Attach(_, AttachAction::ConfigBarAddress))
    &&& !(action matches Action::Vfio(_, VfioAction::NextDeviceId))
    &&& !(action matches Action::Restore(RestoreAction::CheckTscScaling { .. }))
    &&& !allocates_bars(action)
    &&& !writes_cmdline(action)
}

/// The build will have to ask the first vCPU about its time stamp counter.
pub open spec fn asks_first_vcpu(input: BuildInput) -> bool {
    input.source matches Source::Snapshot(snapshot) && saved_tsc(
        input.resources.arch,
        snapshot,
    ) is Some
}

/// The time stamp counter of the first saved vCPU had the frequency.
pub open spec fn is_saved_tsc(input: BuildInput, khz: u32) -> bool {
    input.source matches Source::Snapshot(snapshot) && saved_tsc(
        input.resources.arch,
        snapshot,
    ) == Some(khz)
}

/// Where a machine is restored, there is a saved vCPU to read the time stamp counter of.
pub open spec fn has_first_state(input: BuildInput) -> bool {
    input.source matches Source::Snapshot(snapshot) ==> {
        input.resources.arch == Arch::X86_64 ==> snapshot.vcpu_tsc_khz@.len() > 0
    }
}

/// The outcome is one that the action can have and that the build can go on from. Guest memory
/// leaves room for the devices of a PCI bus, there is a vCPU where one will be asked, and a saved one
/// where it will be read. A device that is passed through gets its number from a PCI bus, the queues
/// of a device can be counted with one more, and its notification addresses are addresses.
pub open spec fn fits(input: BuildInput, action: Action, outcome: Outcome) -> bool {
    match outcome {
        Outcome::Done => {
            &&& tells_nothing(action)
            &&& action == Action::Vmm(VmmAction::AssembleVmm) ==> has_first_state(input)
        },
        Outcome::GuestMemory { last_addr, .. } => {
            &&& action == Action::AllocateGuestMemory
            &&& input.spec_pci_enabled() ==> leaves_device_area(last_addr, input.resources.layout)
        },
        Outcome::Vcpus(count) => {
            &&& action matches Action::Vmm(VmmAction::CreateVcpus { .. })
            &&& asks_first_vcpu(input) ==> count > 0
        },
        Outcome::Bdf(_) => {
            &&& action matches Action::Attach(device, AttachAction::NextDeviceBdf)
            &&& input.resources.spec_device(device).queues < usize::MAX
        },
        Outcome::DeviceId(_) => {
            &&& action matches Action::Vfio(_, VfioAction::NextDeviceId)
            &&& input.spec_pci_enabled()
        },
        Outcome::Bars(_) => allocates_bars(action),
        Outcome::BarAddress(bar_addr) => {
            &&& action matches Action::Attach(device, AttachAction::ConfigBarAddress)
            &&& has_notify_addresses(bar_addr, input.resources.spec_device(device).queue_events)
        },
        Outcome::Cmdline(_) => writes_cmdline(action),
        Outcome::TscScaling(_) => action matches Action::Restore(
            RestoreAction::CheckTscScaling { .. },
        ),
        Outcome::Failed(_) => can_fail(action),
    }
}

/// The steps that follow from what the host told of an action.
pub open spec fn follow_up(
    input: BuildInput,
    build: BuildModel,
    action: Action,
    outcome: Outcome,
) -> Seq<Task> {
    match (action, outcome) {
        (Action::Attach(device, AttachAction::NextDeviceBdf), Outcome::Bdf(bdf)) => bdf_plan(
            device,
            input.resources.spec_device(device),
            bdf,
        ),
        (
            Action::Attach(device, AttachAction::Pci(PciAction::AllocateBars { device: slot })),
            Outcome::Bars(bars),
        ) => bars_plan(input.resources.arch, slot, bars@).map_values(
            |action: PciAction| attach_task(device, AttachAction::Pci(action)),
        ),
        (Action::Attach(device, AttachAction::ConfigBarAddress), Outcome::BarAddress(bar_addr)) =>
            notify_plan(device, input.resources.spec_device(device).queue_events, bar_addr),
        (Action::Vfio(i, VfioAction::NextDeviceId), Outcome::DeviceId(device_id)) =>
            vfio_device_plan(i, device_id, build.regions),
        (
            Action::Vfio(i, VfioAction::Pci(PciAction::AllocateBars { device: slot })),
            Outcome::Bars(bars),
        ) => bars_plan(input.resources.arch, slot, bars@).map_values(
            |action: PciAction| vfio_task(i, VfioAction::Pci(action)),
        ),
        (
            Action::Restore(RestoreAction::CheckTscScaling { khz }),
            Outcome::TscScaling(required),
        ) => tsc_plan(required, build.vcpus as nat, khz),
        _ => seq![],
    }
}

/// What the build knows after the host told it the outcome of an action.
pub open spec fn learn(build: BuildModel, outcome: Outcome) -> BuildModel {
    match outcome {
        Outcome::GuestMemory { last_addr, regions } => BuildModel {
            last_addr,
            regions: regions@,
            ..build
        },
        Outcome::Vcpus(count) => BuildModel { vcpus: count, ..build },
        Outcome::Cmdline(cmdline) => BuildModel { cmdline: Some(model(cmdline)), ..build },
        _ => build,
    }
}

/// The build after the host did what comes first. A failure ends it; otherwise what follows from the
/// outcome comes before everything else that is left.
pub open spec fn step(input: BuildInput, build: BuildModel, outcome: Outcome) -> BuildModel {
    let action = build.todo[0]->Host_0;
    match outcome {
        Outcome::Failed(cause) => BuildModel {
            verdict: Verdict::HostFailed(action, cause),
            ..build
        },
        _ => settle(
            input,
            BuildModel {
                todo: follow_up(input, build, action, outcome) + build.todo.drop_first(),
                ..learn(build, outcome)
            },
        ),
    }
}

/// The step of creating the monitor is one that a build from the input can have: the port I/O
/// devices are those of x86_64 machines.
pub open spec fn is_vmm_action_of(input: BuildInput, action: VmmAction) -> bool {
    match action {
        VmmAction::SetStdoutNonblocking
        | VmmAction::Serial(_)
        | VmmAction::CloneExitEvent
        | VmmAction::CreatePortIoManager
        | VmmAction::RegisterPortIoDevices => input.resources.arch == Arch::X86_64,
        VmmAction::Pci(_) => input.spec_pci_enabled(),
        _ => true,
    }
}

/// The step of placing a device on the PCI bus is one that a build from the input can have.
pub open spec fn is_pci_action_of(input: BuildInput, action: PciAction) -> bool {
    &&& input.spec_pci_enabled()
    &&& action matches PciAction::InsertIoBus { .. } ==> input.resources.arch == Arch::X86_64
}

/// The step of attaching a virtio device is one that a build from the input can have: a device is
/// registered over MMIO where a machine without a PCI bus boots, and has an address on the bus where
/// there is one.
pub open spec fn is_attach_action_of(input: BuildInput, action: AttachAction) -> bool {
    match action {
        AttachAction::Subscribe => true,
        AttachAction::RegisterMmio { .. } => input.source is Boot && !input.spec_pci_enabled(),
        AttachAction::Pci(action) => is_pci_action_of(input, action),
        _ => input.spec_pci_enabled(),
    }
}

/// The task is one that a build from the input can work on.
pub open spec fn is_task_of(input: BuildInput, task: Task) -> bool {
    match task {
        Task::Host(Action::Vmm(action)) => is_vmm_action_of(input, action),
        Task::Host(Action::Attach(device, action)) => {
            &&& input.resources.has_device(device)
            &&& is_attach_action_of(input, action)
        },
        Task::Host(Action::Vfio(i, action)) => {
            &&& i < input.resources.vfio_devices().len()
            &&& !(action is NextDeviceId) ==> input.spec_pci_enabled()
            &&& action matches VfioAction::Pci(action) ==> is_pci_action_of(input, action)
        },
        Task::Host(Action::Legacy(_)) => {
            &&& input.source is Boot
            &&& input.resources.arch == Arch::Aarch64
        },
        Task::Host(Action::Restore(action)) => {
            &&& input.source is Snapshot
            &&& action matches RestoreAction::CheckTscScaling { khz } ==> is_saved_tsc(input, khz)
            &&& action matches RestoreAction::SetTsc { khz, .. } ==> is_saved_tsc(input, khz)
        },
        Task::Host(_) => true,
        Task::RootArguments(i) => {
            &&& input.source is Boot
            &&& i < input.resources.block@.len()
            &&& input.resources.block@[i as int].root_device
        },
        Task::PlanPci => input.spec_pci_enabled(),
        Task::PlanLegacyDevices => {
            &&& input.source is Boot
            &&& input.resources.arch == Arch::Aarch64
        },
        Task::PlanVcpuRestore => input.source is Snapshot,
        Task::RequireFilter(_) => true,
    }
}

/// All of the tasks are such that a build from the input can work on them.
pub open spec fn are_tasks_of(input: BuildInput, tasks: Seq<Task>) -> bool {
    forall|i: int| 0 <= i < tasks.len() ==> is_task_of(input, #[trigger] tasks[i])
}

/// What always holds of a build.
pub open spec fn is_build_of(input: BuildInput, build: BuildModel) -> bool {
    &&& are_tasks_of(input, build.todo)
    &&& build.cmdline is Some <==> input.source is Boot
    &&& input.spec_pci_enabled() ==> leaves_device_area(build.last_addr, input.resources.layout)
    &&& build.verdict is Running ==> build.todo.len() > 0 && build.todo[0] is Host
}

proof fn lemma_mapping_actions(input: BuildInput, bars: Seq<PciBarConfiguration>, i: int)
    requires
        input.spec_pci_enabled(),
        0 <= i < mapping_plan(input.resources.arch, bars).len(),
    ensures
        is_pci_action_of(input, mapping_plan(input.resources.arch, bars)[i]),
    decreases bars.len(),
{
    let arch = input.resources.arch;
    if bars.len() > 0 {
        let before = mapping_plan(arch, bars.drop_last());
        if i < before.len() {
            lemma_mapping_actions(input, bars.drop_last(), i);
        }
    }
}

proof fn lemma_bars_actions(input: BuildInput, slot: u32, bars: Seq<PciBarConfiguration>)
    requires
        input.spec_pci_enabled(),
    ensures
        forall|i: int|
            0 <= i < bars_plan(input.resources.arch, slot, bars).len() ==> is_pci_action_of(
                input,
                #[trigger] bars_plan(input.resources.arch, slot, bars)[i],
            ),
{
    let plan = bars_plan(input.resources.arch, slot, bars);
    assert forall|i: int| 0 <= i < plan.len() implies is_pci_action_of(
        input,
        #[trigger] plan[i],
    ) by {
        if i > 0 {
            lemma_mapping_actions(input, bars, i - 1);
        }
    }
}

/// What follows from an outcome is work that the build can do.
pub(crate) proof fn lemma_follow_up(input: BuildInput, build: BuildModel, action: Action, outcome: Outcome)
    requires
        is_task_of(input, Task::Host(action)),
        fits(input, action, outcome),
    ensures
        are_tasks_of(input, follow_up(input, build, action, outcome)),
{
    match (action, outcome) {
        (
            Action::Attach(_, AttachAction::Pci(PciAction::AllocateBars { device: slot })),
            Outcome::Bars(bars),
        ) => {
            lemma_bars_actions(input, slot, bars@);
        },
        (
            Action::Vfio(_, VfioAction::Pci(PciAction::AllocateBars { device: slot })),
            Outcome::Bars(bars),
        ) => {
            lemma_bars_actions(input, slot, bars@);
        },
        _ => {},
    }
}

/// What a build does without the host keeps what always holds of it.
proof fn lemma_settle(input: BuildInput, build: BuildModel)
    requires
        build.verdict is Running,
        are_tasks_of(input, build.todo),
        build.cmdline is Some <==> input.source is Boot,
        input.spec_pci_enabled() ==> leaves_device_area(build.last_addr, input.resources.layout),
    ensures
        is_build_of(input, settle(input, build)),
    decreases build.todo.len(),
{
    if build.todo.len() > 0 {
        assert(is_task_of(input, build.todo[0]));
        let rest = build.todo.drop_first();
        assert(are_tasks_of(input, rest));
        match build.todo[0] {
            Task::RootArguments(i) => {
                let (cmdline, err) = root_arguments(
                    build.cmdline->0,
                    input.resources.block@[i as int],
                );
                if err is None {
                    lemma_settle(
                        input,
                        BuildModel { todo: rest, cmdline: Some(cmdline), ..build },
                    );
                }
            },
            Task::PlanVcpuRestore | Task::RequireFilter(_) => {
                lemma_settle(input, BuildModel { todo: rest, ..build });
            },
            _ => {},
        }
    }
}

/// Whatever the host reports, a build keeps to the work that its input allows: it asks a machine
/// without a PCI bus for nothing on one, attaches nothing over MMIO where there is one, leaves the
/// port I/O devices and insertions in the port I/O bus to x86_64 machines and the legacy devices to
/// aarch64 machines that boot, restores only from a snapshot, and names only devices that the
/// configuration has.
pub proof fn law_step_keeps_build(input: BuildInput, build: BuildModel, outcome: Outcome)
    requires
        is_build_of(input, build),
        build.verdict is Running,
        fits(input, build.todo[0]->Host_0, outcome),
    ensures
        is_build_of(input, step(input, build, outcome)),
{
    let action = build.todo[0]->Host_0;
    assert(is_task_of(input, build.todo[0]));
    lemma_follow_up(input, build, action, outcome);
    if !(outcome is Failed) {
        let next = BuildModel {
            todo: follow_up(input, build, action, outcome) + build.todo.drop_first(),
            ..learn(build, outcome)
        };
        assert(next.cmdline is Some <==> input.source is Boot);
        lemma_settle(input, next);
    }
}

/// A build from the input that has the tasks before it, and nothing behind it. A machine that boots
/// works on a command line of its own, which starts as the configured one.
pub open spec fn begin(input: BuildInput, tasks: Seq<Task>) -> BuildModel {
    BuildModel {
        todo: tasks,
        cmdline: match input.source {
            Source::Boot => Some(model(input.resources.boot_config->0.cmdline)),
            Source::Snapshot(_) => None,
        },
        last_addr: match input.source {
            Source::Boot => 0,
            Source::Snapshot(snapshot) => snapshot.last_addr,
        },
        regions: match input.source {
            Source::Boot => seq![],
            Source::Snapshot(snapshot) => snapshot.regions@,
        },
        vcpus: 0,
        verdict: Verdict::Running,
    }
}

/// What follows from the task depends on guest memory.
pub open spec fn needs_memory(task: Task) -> bool {
    ||| task == Task::PlanPci
    ||| task matches Task::Host(Action::Vfio(_, VfioAction::NextDeviceId))
}

/// What follows from the task depends on the vCPUs.
pub open spec fn needs_vcpus(task: Task) -> bool {
    ||| task == Task::PlanVcpuRestore
    ||| task matches Task::Host(Action::Restore(RestoreAction::CheckTscScaling { .. }))
}

/// The task creates the vCPUs.
pub open spec fn creates_vcpus(task: Task) -> bool {
    task matches Task::Host(Action::Vmm(VmmAction::CreateVcpus { .. }))
}

/// When the build comes to a task, it knows what follows from that depends on: guest memory was
/// allocated before, unless it comes with a snapshot, and the vCPUs were created before.
pub open spec fn is_prepared(input: BuildInput, tasks: Seq<Task>, k: int) -> bool {
    &&& needs_memory(tasks[k]) && input.source is Boot ==> exists|j: int|
        0 <= j < k && #[trigger] tasks[j] == Task::Host(Action::AllocateGuestMemory)
    &&& needs_vcpus(tasks[k]) ==> exists|j: int| 0 <= j < k && creates_vcpus(#[trigger] tasks[j])
}

/// The build is prepared for each of the tasks.
pub open spec fn are_prepared(input: BuildInput, tasks: Seq<Task>) -> bool {
    forall|k: int| 0 <= k < tasks.len() ==> #[trigger] is_prepared(input, tasks, k)
}

/// A build from the input can begin to work on the tasks. A kernel is configured where one is
/// booted, and the memory of a snapshot leaves room for the devices of a PCI bus.
pub open spec fn can_begin(input: BuildInput, tasks: Seq<Task>) -> bool {
    &&& are_tasks_of(input, tasks)
    &&& are_prepared(input, tasks)
    &&& match input.source {
        Source::Boot => input.resources.boot_config is Some,
        Source::Snapshot(snapshot) => input.spec_pci_enabled() ==> leaves_device_area(
            snapshot.last_addr,
            input.resources.layout,
        ),
    }
}

/// A build that begins is a build.
pub(crate) proof fn lemma_begin(input: BuildInput, tasks: Seq<Task>)
    requires
        can_begin(input, tasks),
    ensures
        is_build_of(input, settle(input, begin(input, tasks))),
        input.spec_pci_enabled() ==> leaves_device_area(
            begin(input, tasks).last_addr,
            input.resources.layout,
        ),
{
    lemma_no_memory_leaves_device_area(input.resources.layout);
    lemma_settle(input, begin(input, tasks));
}

proof fn lemma_tasks_in_turn(input: BuildInput, a: Seq<Task>, b: Seq<Task>)
    requires
        are_tasks_of(input, a),
        are_tasks_of(input, b),
    ensures
        are_tasks_of(input, a + b),
{
}

proof fn lemma_virtio_plan(input: BuildInput, device: DeviceHandle, is_vhost_user: bool)
    requires
        input.source is Boot,
        input.resources.has_device(device),
    ensures
        are_tasks_of(input, virtio_plan(device, input.spec_pci_enabled(), is_vhost_user)),
{
}

proof fn lemma_blocks_plan(input: BuildInput, count: nat)
    requires
        input.source is Boot,
        count <= input.resources.block@.len(),
    ensures
        are_tasks_of(
            input,
            blocks_plan(input.resources.block@.take(count as int), input.spec_pci_enabled()),
        ),
    decreases count,
{
    let blocks = input.resources.block@;
    let pci = input.spec_pci_enabled();
    if count > 0 {
        let i = count - 1;
        let device = DeviceHandle::Block(i as usize);
        assert(blocks.len() == input.resources.block.len());
        lemma_blocks_plan(input, i as nat);
        assert(blocks.take(count as int).drop_last() =~= blocks.take(i));
        assert(input.resources.has_device(device));
        lemma_virtio_plan(input, device, blocks[i].is_vhost_user);
        assert(are_tasks_of(input, block_plan(i, blocks[i], pci)));
        lemma_tasks_in_turn(
            input,
            blocks_plan(blocks.take(i), pci),
            block_plan(i, blocks[i], pci),
        );
    }
}

proof fn lemma_nets_plan(input: BuildInput, count: nat)
    requires
        input.source is Boot,
        count <= input.resources.net@.len(),
    ensures
        are_tasks_of(input, nets_plan(count, input.spec_pci_enabled())),
    decreases count,
{
    if count > 0 {
        let pci = input.spec_pci_enabled();
        let device = DeviceHandle::Net((count - 1) as usize);
        assert(input.resources.net@.len() == input.resources.net.len());
        lemma_nets_plan(input, (count - 1) as nat);
        assert(input.resources.has_device(device));
        lemma_virtio_plan(input, device, false);
        lemma_tasks_in_turn(
            input,
            nets_plan((count - 1) as nat, pci),
            virtio_plan(device, pci, false),
        );
    }
}

proof fn lemma_optional_device(input: BuildInput, device: DeviceHandle)
    requires
        input.source is Boot,
    ensures
        are_tasks_of(
            input,
            tasks_if(
                input.resources.has_device(device),
                virtio_plan(device, input.spec_pci_enabled(), false),
            ),
        ),
{
    if input.resources.has_device(device) {
        lemma_virtio_plan(input, device, false);
    }
}

proof fn lemma_devices_plan(input: BuildInput)
    requires
        input.source is Boot,
    ensures
        are_tasks_of(input, devices_plan(input.resources, input.spec_pci_enabled())),
{
    let resources = input.resources;
    let pci = input.spec_pci_enabled();
    lemma_optional_device(input, DeviceHandle::Balloon);
    lemma_optional_device(input, DeviceHandle::Vsock);
    lemma_optional_device(input, DeviceHandle::Entropy);
    lemma_blocks_plan(input, resources.block@.len());
    assert(resources.block@.take(resources.block@.len() as int) =~= resources.block@);
    lemma_nets_plan(input, resources.net@.len());
    let balloon = tasks_if(
        resources.balloon is Some,
        virtio_plan(DeviceHandle::Balloon, pci, false),
    );
    let blocks = blocks_plan(resources.block@, pci);
    let nets = nets_plan(resources.net@.len(), pci);
    let vsock = tasks_if(resources.vsock is Some, virtio_plan(DeviceHandle::Vsock, pci, false));
    let entropy = tasks_if(
        resources.entropy is Some,
        virtio_plan(DeviceHandle::Entropy, pci, false),
    );
    lemma_tasks_in_turn(input, balloon, blocks);
    lemma_tasks_in_turn(input, balloon + blocks, nets);
    lemma_tasks_in_turn(input, balloon + blocks + nets, vsock);
    lemma_tasks_in_turn(input, balloon + blocks + nets + vsock, entropy);
}

proof fn lemma_create_vmm_plan(input: BuildInput, capabilities: Capabilities)
    ensures
        are_tasks_of(
            input,
            create_vmm_plan(
                input.resources.arch,
                input.spec_pci_enabled(),
                input.resources.vcpu_count,
                capabilities,
            ),
        ),
{
}

proof fn lemma_machine_plan(input: BuildInput)
    requires
        input.source is Boot,
    ensures
        are_tasks_of(input, machine_plan(input.resources, input.spec_pci_enabled())),
{
    let vmm = create_vmm_plan(
        input.resources.arch,
        input.spec_pci_enabled(),
        input.resources.vcpu_count,
        Capabilities::CpuTemplate,
    );
    lemma_create_vmm_plan(input, Capabilities::CpuTemplate);
    lemma_tasks_in_turn(input, guest_plan(), vmm);
    lemma_tasks_in_turn(
        input,
        guest_plan() + vmm,
        tasks_if(input.resources.gdb is Some, debug_plan()),
    );
}

proof fn lemma_passthrough_plan(input: BuildInput)
    requires
        input.source is Boot,
    ensures
        are_tasks_of(input, passthrough_plan(input.resources)),
{
    if input.resources.has_vfio() {
        assert(input.resources.vfio_devices().len()
            == input.resources.pci_config->0.vfio_devices->0.len());
    }
}

proof fn lemma_launch_plan(input: BuildInput)
    ensures
        are_tasks_of(input, launch_plan(input.resources)),
{
}

/// A build that boots is prepared for tasks that begin with guest memory.
pub(crate) proof fn lemma_boot_prepared(input: BuildInput, tasks: Seq<Task>)
    requires
        input.source is Boot,
        are_tasks_of(input, tasks),
        tasks.len() > 0,
        tasks[0] == Task::Host(Action::AllocateGuestMemory),
    ensures
        are_prepared(input, tasks),
{
    assert forall|k: int| 0 <= k < tasks.len() implies #[trigger] is_prepared(input, tasks, k) by {
        assert(is_task_of(input, tasks[k]));
    }
}

/// The steps of booting are work that a build can do.
pub(crate) proof fn lemma_boot_plan(input: BuildInput)
    requires
        input.source is Boot,
    ensures
        are_tasks_of(input, boot_plan(input.resources)),
        boot_plan(input.resources)[0] == Task::Host(Action::AllocateGuestMemory),
{
    let resources = input.resources;
    let pci = input.spec_pci_enabled();
    let machine = machine_plan(resources, pci);
    let timer = boot_timer_plan(resources);
    let devices = devices_plan(resources, pci);
    let vfio = passthrough_plan(resources);
    let legacy = platform_plan(resources);
    let launch = launch_plan(resources);
    lemma_machine_plan(input);
    lemma_devices_plan(input);
    lemma_passthrough_plan(input);
    lemma_launch_plan(input);
    lemma_tasks_in_turn(input, machine, timer);
    lemma_tasks_in_turn(input, machine + timer, devices);
    lemma_tasks_in_turn(input, machine + timer + devices, vfio);
    lemma_tasks_in_turn(input, machine + timer + devices + vfio, legacy);
    lemma_tasks_in_turn(input, machine + timer + devices + vfio + legacy, launch);
    assert(machine[0] == Task::Host(Action::AllocateGuestMemory));
}

/// The steps of restoring a snapshot are work that a build can do.
pub(crate) proof fn lemma_snapshot_plan(input: BuildInput)
    requires
        input.source is Snapshot,
    ensures
        are_tasks_of(input, snapshot_plan(input.resources, input.source->Snapshot_0)),
        are_prepared(input, snapshot_plan(input.resources, input.source->Snapshot_0)),
{
    let plan = snapshot_plan(input.resources, input.source->Snapshot_0);
    let vmm = create_vmm_plan(
        input.resources.arch,
        input.spec_pci_enabled(),
        input.resources.vcpu_count,
        Capabilities::Snapshot,
    );
    lemma_create_vmm_plan(input, Capabilities::Snapshot);
    assert(creates_vcpus(vmm[4]));
    assert(plan[4] == vmm[4]);
    assert forall|k: int| 0 <= k < plan.len() implies #[trigger] is_prepared(input, plan, k) by {
        if k <= 4 {
            assert(plan[k] == vmm[k]);
        }
    }
}

} // verus!
