//! In which order the host is asked for the steps of one and the same thing.
use crate::builder::boot_and_run_plan;
use crate::cmdline_laws::boots;
use crate::laws::{
    asked, is_only_planned, is_run, law_asked_once, law_phases_in_order, law_run_keeps_build,
    lemma_run_before, planned, run,
};
use crate::machine_laws::{
    law_restoration_is_as_saved, lemma_boot_holds, lemma_restoration_holds,
};
use crate::model::{
    fits, follow_up, is_build_of, law_step_keeps_build, learn, settle, step, BuildModel,
};
use crate::pci::{bar_action, mapping_plan};
use crate::recipe::{
    boot_plan, boot_timer_plan, debug_plan, devices_plan, guest_plan, launch_plan, machine_plan,
    passthrough_plan, platform_plan, restore_task, resume_plan, saved_tsc, snapshot_plan, start_plan,
    tasks_if,
};
use crate::recipe_laws::{
    can_restore, law_boot_is_in_order, law_restoration_is_in_order, lemma_boot_build,
    lemma_snapshot_build, snapshot_build,
};
use crate::resources::{
    Arch, BlockDevice, BuildInput, DeviceHandle, SnapshotInfo, VmResources,
};
use crate::root::root_arguments;
use crate::task::{
    Action, AttachAction, Capabilities, LegacyAction, Outcome, PciAction, PciBarConfiguration,
    PciSetupAction,
    RestoreAction, SerialAction, Task, VfioAction, VmgenidAction, VmmAction,
};
use crate::virtio::{block_plan, blocks_plan, nets_plan, virtio_plan};
use crate::vmm::{create_vmm_plan, port_io_plan, vmgenid_plan};
use vstd::prelude::*;

verus! {

/// The thing that a step is part of, where the order of its steps matters: creating the monitor,
/// attaching the legacy devices, attaching the device that tells of clones, restoring the vCPUs, setting
/// their time stamp counters, attaching one virtio device, which for a root device includes its
/// arguments, and passing one device through.
pub open spec fn part_of(task: Task) -> Option<(int, int)> {
    match task {
        Task::Host(Action::Vmm(_)) | Task::PlanPci => Some((0, 0)),
        Task::Host(Action::Legacy(_)) | Task::PlanLegacyDevices => Some((1, 0)),
        Task::Host(Action::Vmgenid(_)) => Some((2, 0)),
        Task::Host(Action::Restore(RestoreAction::RestoreVcpu { .. })) | Task::PlanVcpuRestore =>
            Some((3, 0)),
        Task::Host(Action::Restore(RestoreAction::CheckTscScaling { .. }))
        | Task::Host(Action::Restore(RestoreAction::SetTsc { .. })) => Some((4, 0)),
        Task::Host(Action::Attach(device, _)) => match device {
            DeviceHandle::Balloon => Some((5, 0)),
            DeviceHandle::Block(i) => Some((6, i as int)),
            DeviceHandle::Net(i) => Some((7, i as int)),
            DeviceHandle::Vsock => Some((8, 0)),
            DeviceHandle::Entropy => Some((9, 0)),
        },
        Task::RootArguments(i) => Some((6, i as int)),
        Task::Host(Action::Vfio(i, _)) => Some((10, i as int)),
        _ => None,
    }
}

/// When it is the turn of a step of the serial device.
pub open spec fn serial_turn(action: SerialAction) -> int {
    match action {
        SerialAction::CreateInterruptEvent => 0,
        SerialAction::CreateKickStdinEvent => 1,
        SerialAction::CreateDevice => 2,
        SerialAction::Subscribe => 3,
    }
}

/// When it is the turn of a step of setting up the PCI bus.
pub open spec fn bus_turn(action: PciSetupAction) -> int {
    match action {
        PciSetupAction::CreateSystemAllocator { .. } => 0,
        PciSetupAction::CreateMsiInterruptManager => 1,
        PciSetupAction::CreateMmio32Allocator { .. } => 2,
        PciSetupAction::CreateMmio64Allocator { .. } => 3,
        PciSetupAction::CreateSegment { .. } => 4,
        PciSetupAction::InstallConfigPorts => 5,
    }
}

/// When it is the turn of a step of creating the monitor.
pub open spec fn monitor_turn(action: VmmAction) -> int {
    match action {
        VmmAction::OpenKvm { .. } => 0,
        VmmAction::CreateVm => 1,
        VmmAction::CheckMemory => 2,
        VmmAction::InitMemory => 3,
        VmmAction::CreateVcpus { .. } => 4,
        VmmAction::CreateResourceAllocator => 5,
        VmmAction::CreateDeviceManagers => 6,
        VmmAction::SetStdoutNonblocking => 7,
        VmmAction::Serial(action) => 8 + serial_turn(action),
        VmmAction::CloneExitEvent => 12,
        VmmAction::CreatePortIoManager => 13,
        VmmAction::Pci(action) => 14 + bus_turn(action),
        VmmAction::RegisterPortIoDevices => 20,
        VmmAction::AssembleVmm => 21,
    }
}

/// When it is the turn of a step of attaching the legacy devices.
pub open spec fn legacy_turn(action: LegacyAction) -> int {
    match action {
        LegacyAction::SetStdoutNonblocking => 0,
        LegacyAction::Serial(action) => 1 + serial_turn(action),
        LegacyAction::RegisterSerial => 5,
        LegacyAction::AddSerialToCmdline => 6,
        LegacyAction::RegisterRtc => 7,
    }
}

/// When it is the turn of a step of placing a device on the PCI bus. A device can be inserted in the
/// buses more than once.
pub open spec fn placing_turn(action: PciAction) -> int {
    match action {
        PciAction::AllocateBars { .. } => 0,
        PciAction::AddDevice { .. } => 1,
        PciAction::InsertIoBus { .. } | PciAction::InsertMmioBus { .. } => 2,
    }
}

/// When it is the turn of a step of attaching a virtio device. The events of the queues are registered
/// in the order of the queues.
pub open spec fn attach_turn(action: AttachAction) -> int {
    match action {
        AttachAction::Subscribe => 0,
        AttachAction::RegisterMmio { .. } => 1,
        AttachAction::NextDeviceBdf => 1,
        AttachAction::CreateVirtioPci { .. } => 2,
        AttachAction::Pci(action) => 3 + placing_turn(action),
        AttachAction::ConfigBarAddress => 6,
        AttachAction::RegisterIoevent { queue, .. } => 7 + queue,
    }
}

/// When it is the turn of a step of passing a device through. Regions of memory are mapped in the end.
pub open spec fn passthrough_turn(action: VfioAction) -> int {
    match action {
        VfioAction::NextDeviceId => 0,
        VfioAction::CreateContainer => 1,
        VfioAction::OpenDevice => 2,
        VfioAction::CreateDevice { .. } => 3,
        VfioAction::Pci(action) => 4 + placing_turn(action),
        VfioAction::DmaMap { .. } => 7,
    }
}

/// When it is the turn of a step among those of the thing that it is part of.
pub open spec fn turn(task: Task) -> int {
    match task {
        Task::Host(Action::Vmm(action)) => monitor_turn(action),
        Task::PlanPci => 14,
        Task::Host(Action::Legacy(action)) => legacy_turn(action),
        Task::Host(Action::Vmgenid(VmgenidAction::Attach)) => 1,
        Task::Host(Action::Restore(RestoreAction::RestoreVcpu { index })) => index as int,
        Task::Host(Action::Restore(RestoreAction::CheckTscScaling { .. })) => -1,
        Task::Host(Action::Restore(RestoreAction::SetTsc { vcpu, .. })) => vcpu as int,
        Task::Host(Action::Attach(_, action)) => attach_turn(action),
        Task::RootArguments(_) => -1,
        Task::Host(Action::Vfio(_, action)) => passthrough_turn(action),
        _ => 0,
    }
}

/// A step that can come more than once for the same thing: a device is inserted in the buses for each of
/// its registers, and each region of memory is mapped.
pub open spec fn can_repeat(task: Task) -> bool {
    match task {
        Task::Host(Action::Attach(_, AttachAction::Pci(action))) => placing_turn(action) == 2,
        Task::Host(Action::Vfio(_, VfioAction::Pci(action))) => placing_turn(action) == 2,
        Task::Host(Action::Vfio(_, VfioAction::DmaMap { .. })) => true,
        _ => false,
    }
}

/// The first step comes before the second, unless they are not of the same thing.
pub open spec fn in_turn(first: Task, second: Task) -> bool {
    part_of(first) is Some && part_of(first) == part_of(second) ==> {
        ||| turn(first) < turn(second)
        ||| turn(first) == turn(second) && can_repeat(first)
    }
}

/// The last turn that a task can still lead to.
spec fn last_turn(task: Task) -> int {
    match task {
        Task::PlanPci => 19,
        Task::PlanLegacyDevices => 7,
        Task::PlanVcpuRestore => usize::MAX as int,
        Task::Host(Action::Restore(RestoreAction::CheckTscScaling { .. })) => usize::MAX as int,
        Task::Host(Action::Attach(_, AttachAction::NextDeviceBdf)) => 7 + usize::MAX,
        Task::Host(Action::Attach(_, AttachAction::Pci(PciAction::AllocateBars { .. }))) => 5,
        Task::Host(Action::Attach(_, AttachAction::ConfigBarAddress)) => 7 + usize::MAX,
        Task::Host(Action::Vfio(_, VfioAction::NextDeviceId)) => 7,
        Task::Host(Action::Vfio(_, VfioAction::Pci(PciAction::AllocateBars { .. }))) => 6,
        _ => turn(task),
    }
}

/// All that the first task leads to comes before the second, unless they are not of the same thing.
spec fn is_over_before(first: Task, second: Task) -> bool {
    part_of(first) is Some && part_of(first) == part_of(second) ==> {
        ||| last_turn(first) < turn(second)
        ||| last_turn(first) == turn(second) && can_repeat(first)
    }
}

/// The tasks are in turn.
spec fn are_in_turn(tasks: Seq<Task>) -> bool {
    forall|a: int, b: int|
        0 <= a < b < tasks.len() ==> is_over_before(#[trigger] tasks[a], #[trigger] tasks[b])
}

/// All of the tasks come after the given one.
spec fn all_after(task: Task, tasks: Seq<Task>) -> bool {
    forall|b: int| 0 <= b < tasks.len() ==> in_turn(task, #[trigger] tasks[b])
}

/// All of the tasks are what the given one can lead to.
spec fn all_within(task: Task, tasks: Seq<Task>) -> bool {
    forall|b: int|
        0 <= b < tasks.len() ==> {
            &&& part_of(#[trigger] tasks[b]) == part_of(task)
            &&& part_of(task) is Some
            &&& turn(task) <= turn(tasks[b])
            &&& last_turn(tasks[b]) <= last_turn(task)
            &&& !can_repeat(task)
        }
}

proof fn lemma_within_in_turn(task: Task, first: Seq<Task>, rest: Seq<Task>)
    requires
        are_in_turn(first),
        all_within(task, first),
        are_in_turn(rest),
        forall|b: int| 0 <= b < rest.len() ==> is_over_before(task, #[trigger] rest[b]),
    ensures
        are_in_turn(first + rest),
{
    let all = first + rest;
    assert forall|a: int, b: int| 0 <= a < b < all.len() implies is_over_before(
        #[trigger] all[a],
        #[trigger] all[b],
    ) by {
        if b < first.len() {
            assert(all[a] == first[a] && all[b] == first[b]);
        } else {
            assert(all[b] == rest[b - first.len()]);
            assert(is_over_before(task, rest[b - first.len()]));
            if a < first.len() {
                assert(all[a] == first[a]);
            } else {
                assert(all[a] == rest[a - first.len()]);
            }
        }
    }
}

proof fn lemma_within_all_after(before: Task, task: Task, first: Seq<Task>, rest: Seq<Task>)
    requires
        all_within(task, first),
        in_turn(before, task),
        all_after(before, rest),
    ensures
        all_after(before, first + rest),
{
    let all = first + rest;
    assert forall|b: int| 0 <= b < all.len() implies in_turn(before, #[trigger] all[b]) by {
        if b < first.len() {
            assert(all[b] == first[b]);
        } else {
            assert(all[b] == rest[b - first.len()]);
        }
    }
}

proof fn lemma_planned_in_turn(input: BuildInput, build: BuildModel, task: Task)
    ensures
        are_in_turn(planned(input, build, task)),
        all_within(task, planned(input, build, task)),
{
}

proof fn lemma_mapping_inserts(arch: Arch, bars: Seq<PciBarConfiguration>)
    ensures
        forall|i: int|
            0 <= i < mapping_plan(arch, bars).len() ==> placing_turn(
                #[trigger] mapping_plan(arch, bars)[i],
            ) == 2,
    decreases bars.len(),
{
    if bars.len() > 0 {
        let before = mapping_plan(arch, bars.drop_last());
        let last = bar_action(arch, bars.last());
        let all = mapping_plan(arch, bars);
        lemma_mapping_inserts(arch, bars.drop_last());
        assert forall|i: int| 0 <= i < all.len() implies placing_turn(#[trigger] all[i]) == 2 by {
            if i < before.len() {
                assert(all[i] == before[i]);
            } else {
                assert(all[i] == last[i - before.len()]);
            }
        }
    }
}

proof fn lemma_follow_up_in_turn(
    input: BuildInput,
    build: BuildModel,
    action: Action,
    outcome: Outcome,
)
    requires
        fits(input, action, outcome),
    ensures
        are_in_turn(follow_up(input, build, action, outcome)),
        all_within(Task::Host(action), follow_up(input, build, action, outcome)),
        all_after(Task::Host(action), follow_up(input, build, action, outcome)),
{
    if let Outcome::Bars(bars) = outcome {
        lemma_mapping_inserts(input.resources.arch, bars@);
    }
}

proof fn lemma_settle_in_turn(input: BuildInput, build: BuildModel, before: Task)
    requires
        are_in_turn(build.todo),
        all_after(before, build.todo),
    ensures
        are_in_turn(settle(input, build).todo),
        all_after(before, settle(input, build).todo),
    decreases build.todo.len(),
{
    if build.todo.len() > 0 {
        let rest = build.todo.drop_first();
        let first = build.todo[0];
        assert forall|b: int| 0 <= b < rest.len() implies is_over_before(first, #[trigger] rest[b]) by {
            assert(rest[b] == build.todo[b + 1]);
        }
        assert(are_in_turn(rest)) by {
            assert forall|a: int, b: int| 0 <= a < b < rest.len() implies is_over_before(
                #[trigger] rest[a],
                #[trigger] rest[b],
            ) by {
                assert(rest[a] == build.todo[a + 1] && rest[b] == build.todo[b + 1]);
            }
        }
        assert(all_after(before, rest));
        match first {
            Task::RootArguments(i) => {
                let (cmdline, err) = root_arguments(
                    build.cmdline->0,
                    input.resources.block@[i as int],
                );
                lemma_settle_in_turn(
                    input,
                    BuildModel { todo: rest, cmdline: Some(cmdline), ..build },
                    before,
                );
            },
            Task::PlanPci | Task::PlanLegacyDevices => {
                lemma_planned_in_turn(input, build, first);
                lemma_within_in_turn(first, planned(input, build, first), rest);
                lemma_within_all_after(before, first, planned(input, build, first), rest);
            },
            Task::PlanVcpuRestore => {
                lemma_planned_in_turn(input, build, first);
                lemma_within_in_turn(first, planned(input, build, first), rest);
                lemma_within_all_after(before, first, planned(input, build, first), rest);
                lemma_settle_in_turn(input, BuildModel { todo: rest, ..build }, before);
            },
            Task::RequireFilter(_) => {
                lemma_settle_in_turn(input, BuildModel { todo: rest, ..build }, before);
            },
            _ => {},
        }
    }
}

proof fn lemma_step_in_turn(
    input: BuildInput,
    build: BuildModel,
    outcome: Outcome,
    before: Task,
)
    requires
        is_build_of(input, build),
        build.verdict is Running,
        fits(input, build.todo[0]->Host_0, outcome),
        are_in_turn(build.todo),
        before == build.todo[0] || all_after(before, build.todo),
    ensures
        are_in_turn(step(input, build, outcome).todo),
        !(outcome is Failed) || before != build.todo[0] ==> all_after(
            before,
            step(input, build, outcome).todo,
        ),
{
    let action = build.todo[0]->Host_0;
    let first = build.todo[0];
    let later = build.todo.drop_first();
    assert(first == Task::Host(action));
    if !(outcome is Failed) {
        let followed = follow_up(input, build, action, outcome);
        assert forall|b: int| 0 <= b < later.len() implies is_over_before(
            first,
            #[trigger] later[b],
        ) by {
            assert(later[b] == build.todo[b + 1]);
        }
        assert(are_in_turn(later)) by {
            assert forall|a: int, b: int| 0 <= a < b < later.len() implies is_over_before(
                #[trigger] later[a],
                #[trigger] later[b],
            ) by {
                assert(later[a] == build.todo[a + 1] && later[b] == build.todo[b + 1]);
            }
        }
        lemma_follow_up_in_turn(input, build, action, outcome);
        lemma_within_in_turn(first, followed, later);
        let all = followed + later;
        assert(all_after(before, all)) by {
            assert forall|b: int| 0 <= b < all.len() implies in_turn(before, #[trigger] all[b]) by {
                if b < followed.len() {
                    assert(all[b] == followed[b]);
                    assert(before == first || in_turn(before, first));
                } else {
                    assert(all[b] == later[b - followed.len()]);
                    assert(is_over_before(first, later[b - followed.len()]));
                    assert(later[b - followed.len()] == build.todo[b - followed.len() + 1]);
                }
            }
        }
        lemma_settle_in_turn(
            input,
            BuildModel { todo: all, ..learn(build, outcome) },
            before,
        );
    }
}

proof fn lemma_all_after_later(
    input: BuildInput,
    build: BuildModel,
    outcomes: Seq<Outcome>,
    before: Task,
    j: int,
)
    requires
        is_build_of(input, build),
        is_run(input, build, outcomes),
        are_in_turn(build.todo),
        all_after(before, build.todo),
        0 <= j < outcomes.len(),
    ensures
        in_turn(before, Task::Host(asked(input, build, outcomes)[j])),
    decreases outcomes.len(),
{
    let next = step(input, build, outcomes[0]);
    let rest = outcomes.drop_first();
    let all = asked(input, build, outcomes);
    law_run_keeps_build(input, build, outcomes);
    law_step_keeps_build(input, build, outcomes[0]);
    assert(build.todo[0] == Task::Host(all[0]));
    assert(in_turn(before, build.todo[0]));
    if j > 0 {
        assert(is_run(input, next, rest));
        assert(rest.len() > 0);
        assert(!(outcomes[0] is Failed));
        lemma_step_in_turn(input, build, outcomes[0], before);
        lemma_all_after_later(input, next, rest, before, j - 1);
        assert(all[j] == asked(input, next, rest)[j - 1]);
    }
}

proof fn lemma_asked_in_turn(
    input: BuildInput,
    build: BuildModel,
    outcomes: Seq<Outcome>,
    i: int,
    j: int,
)
    requires
        is_build_of(input, build),
        is_run(input, build, outcomes),
        are_in_turn(build.todo),
        0 <= i < j < outcomes.len(),
    ensures
        in_turn(
            Task::Host(asked(input, build, outcomes)[i]),
            Task::Host(asked(input, build, outcomes)[j]),
        ),
    decreases outcomes.len(),
{
    let next = step(input, build, outcomes[0]);
    let rest = outcomes.drop_first();
    let all = asked(input, build, outcomes);
    law_run_keeps_build(input, build, outcomes);
    law_step_keeps_build(input, build, outcomes[0]);
    assert(build.todo[0] == Task::Host(all[0]));
    assert(is_run(input, next, rest));
    assert(rest.len() > 0);
    assert(!(outcomes[0] is Failed));
    lemma_step_in_turn(input, build, outcomes[0], build.todo[0]);
    assert(all[j] == asked(input, next, rest)[j - 1]);
    if i > 0 {
        lemma_asked_in_turn(input, next, rest, i - 1, j - 1);
        assert(all[i] == asked(input, next, rest)[i - 1]);
    } else {
        lemma_all_after_later(input, next, rest, build.todo[0], j - 1);
    }
}

/// No two tasks, one of each, are of the same thing.
spec fn are_apart(first: Seq<Task>, rest: Seq<Task>) -> bool {
    forall|a: int, b: int|
        0 <= a < first.len() && 0 <= b < rest.len() ==> part_of(#[trigger] first[a]) is None
            || part_of(first[a]) != part_of(#[trigger] rest[b])
}

proof fn lemma_apart_in_turn(first: Seq<Task>, rest: Seq<Task>)
    requires
        are_in_turn(first),
        are_in_turn(rest),
        are_apart(first, rest),
    ensures
        are_in_turn(first + rest),
{
    let all = first + rest;
    assert forall|a: int, b: int| 0 <= a < b < all.len() implies is_over_before(
        #[trigger] all[a],
        #[trigger] all[b],
    ) by {
        if b < first.len() {
            assert(all[a] == first[a] && all[b] == first[b]);
        } else if a >= first.len() {
            assert(all[a] == rest[a - first.len()] && all[b] == rest[b - first.len()]);
        } else {
            assert(all[a] == first[a] && all[b] == rest[b - first.len()]);
        }
    }
}

/// What the tasks are part of is of one of the kinds between the two.
spec fn kinds_between(low: int, high: int, tasks: Seq<Task>) -> bool {
    forall|a: int|
        0 <= a < tasks.len() ==> (part_of(#[trigger] tasks[a]) matches Some((kind, _)) ==> low
            <= kind <= high)
}

proof fn lemma_kinds_in_turn(low: int, high: int, first: Seq<Task>, rest: Seq<Task>)
    requires
        kinds_between(low, high, first),
        kinds_between(low, high, rest),
    ensures
        kinds_between(low, high, first + rest),
{
    let all = first + rest;
    assert forall|a: int| 0 <= a < all.len() implies (part_of(#[trigger] all[a]) matches Some(
        (kind, _),
    ) ==> low <= kind <= high) by {
        if a < first.len() {
            assert(all[a] == first[a]);
        } else {
            assert(all[a] == rest[a - first.len()]);
        }
    }
}

proof fn lemma_blocks_in_turn(blocks: Seq<BlockDevice>, pci: bool)
    requires
        blocks.len() <= usize::MAX,
    ensures
        are_in_turn(blocks_plan(blocks, pci)),
        forall|a: int|
            0 <= a < blocks_plan(blocks, pci).len() ==> (part_of(
                #[trigger] blocks_plan(blocks, pci)[a],
            ) matches Some((kind, i)) ==> kind == 6 && i < blocks.len()),
    decreases blocks.len(),
{
    if blocks.len() > 0 {
        let before = blocks_plan(blocks.drop_last(), pci);
        let last = block_plan(blocks.len() - 1, blocks.last(), pci);
        let all = before + last;
        lemma_blocks_in_turn(blocks.drop_last(), pci);
        assert forall|a: int| 0 <= a < last.len() implies (part_of(#[trigger] last[a]) matches Some(
            (kind, i),
        ) ==> kind == 6 && i == blocks.len() - 1) by {}
        assert(are_in_turn(last));
        lemma_apart_in_turn(before, last);
        assert forall|a: int| 0 <= a < all.len() implies (part_of(#[trigger] all[a]) matches Some(
            (kind, i),
        ) ==> kind == 6 && i < blocks.len()) by {
            if a < before.len() {
                assert(all[a] == before[a]);
            } else {
                assert(all[a] == last[a - before.len()]);
            }
        }
    }
}

proof fn lemma_nets_in_turn(count: nat, pci: bool)
    requires
        count <= usize::MAX,
    ensures
        are_in_turn(nets_plan(count, pci)),
        forall|a: int|
            0 <= a < nets_plan(count, pci).len() ==> (part_of(#[trigger] nets_plan(count, pci)[a])
                matches Some((kind, i)) ==> kind == 7 && i < count),
    decreases count,
{
    if count > 0 {
        let before = nets_plan((count - 1) as nat, pci);
        let last = virtio_plan(DeviceHandle::Net((count - 1) as usize), pci, false);
        let all = before + last;
        lemma_nets_in_turn((count - 1) as nat, pci);
        assert forall|a: int| 0 <= a < last.len() implies (part_of(#[trigger] last[a]) matches Some(
            (kind, i),
        ) ==> kind == 7 && i == count - 1) by {}
        assert(are_in_turn(last));
        lemma_apart_in_turn(before, last);
        assert forall|a: int| 0 <= a < all.len() implies (part_of(#[trigger] all[a]) matches Some(
            (kind, i),
        ) ==> kind == 7 && i < count) by {
            if a < before.len() {
                assert(all[a] == before[a]);
            } else {
                assert(all[a] == last[a - before.len()]);
            }
        }
    }
}

proof fn lemma_devices_in_turn(resources: VmResources, pci: bool)
    ensures
        are_in_turn(devices_plan(resources, pci)),
        kinds_between(5, 9, devices_plan(resources, pci)),
{
    let balloon = tasks_if(
        resources.balloon is Some,
        virtio_plan(DeviceHandle::Balloon, pci, false),
    );
    let blocks = blocks_plan(resources.block@, pci);
    let nets = nets_plan(resources.net@.len(), pci);
    let vsock = tasks_if(resources.vsock is Some, virtio_plan(DeviceHandle::Vsock, pci, false));
    let entropy = tasks_if(
        resources.entropy is Some,
        virtio_plan(DeviceHandle::Entropy, pci, false),
    );
    assert(resources.block@.len() == resources.block.len());
    assert(resources.net@.len() == resources.net.len());
    lemma_blocks_in_turn(resources.block@, pci);
    lemma_nets_in_turn(resources.net@.len(), pci);
    assert(kinds_between(5, 5, balloon) && kinds_between(8, 8, vsock) && kinds_between(
        9,
        9,
        entropy,
    ));
    assert(kinds_between(6, 6, blocks) && kinds_between(7, 7, nets));
    assert(are_in_turn(balloon) && are_in_turn(vsock) && are_in_turn(entropy));
    assert(are_apart(balloon, blocks));
    lemma_apart_in_turn(balloon, blocks);
    lemma_kinds_in_turn(5, 6, balloon, blocks);
    assert(are_apart(balloon + blocks, nets));
    lemma_apart_in_turn(balloon + blocks, nets);
    lemma_kinds_in_turn(5, 7, balloon + blocks, nets);
    assert(are_apart(balloon + blocks + nets, vsock));
    lemma_apart_in_turn(balloon + blocks + nets, vsock);
    lemma_kinds_in_turn(5, 8, balloon + blocks + nets, vsock);
    assert(are_apart(balloon + blocks + nets + vsock, entropy));
    lemma_apart_in_turn(balloon + blocks + nets + vsock, entropy);
    lemma_kinds_in_turn(5, 9, balloon + blocks + nets + vsock, entropy);
}

proof fn lemma_monitor_in_turn(
    arch: Arch,
    pci: bool,
    vcpu_count: u8,
    capabilities: Capabilities,
)
    ensures
        are_in_turn(create_vmm_plan(arch, pci, vcpu_count, capabilities)),
        kinds_between(0, 0, create_vmm_plan(arch, pci, vcpu_count, capabilities)),
{
    let plan = create_vmm_plan(arch, pci, vcpu_count, capabilities);
    assert(port_io_plan().len() == 7);
    assert(forall|k: int|
        0 <= k < 7 ==> turn(#[trigger] plan[k]) == k && last_turn(plan[k]) == k);
    if arch == Arch::X86_64 {
        assert forall|k: int| 7 <= k < 14 implies turn(#[trigger] plan[k]) == k && last_turn(plan[k])
            == k by {
            assert(plan[k] == port_io_plan()[k - 7]);
        }
    }
}

proof fn lemma_boot_in_turn(resources: VmResources)
    ensures
        are_in_turn(boot_plan(resources)),
        are_in_turn(boot_and_run_plan(resources)),
{
    let pci = resources.spec_pci_enabled(true);
    let guest = guest_plan();
    let vmm = create_vmm_plan(
        resources.arch,
        pci,
        resources.vcpu_count,
        Capabilities::CpuTemplate,
    );
    let debug = tasks_if(resources.gdb is Some, debug_plan());
    let machine = machine_plan(resources, pci);
    let timer = boot_timer_plan(resources);
    let devices = devices_plan(resources, pci);
    let vfio = passthrough_plan(resources);
    let legacy = platform_plan(resources);
    let launch = launch_plan(resources);
    let resume = seq![Task::Host(Action::ResumeVm)];
    lemma_monitor_in_turn(resources.arch, pci, resources.vcpu_count, Capabilities::CpuTemplate);
    lemma_devices_in_turn(resources, pci);
    assert(are_in_turn(guest) && kinds_between(0, 0, guest) && are_apart(guest, vmm));
    lemma_apart_in_turn(guest, vmm);
    lemma_kinds_in_turn(0, 0, guest, vmm);
    assert(are_in_turn(debug) && kinds_between(0, 0, debug) && are_apart(guest + vmm, debug));
    lemma_apart_in_turn(guest + vmm, debug);
    lemma_kinds_in_turn(0, 0, guest + vmm, debug);
    assert(are_in_turn(timer) && kinds_between(0, 0, timer) && are_apart(machine, timer));
    lemma_apart_in_turn(machine, timer);
    lemma_kinds_in_turn(0, 0, machine, timer);
    assert(are_apart(machine + timer, devices));
    lemma_apart_in_turn(machine + timer, devices);
    lemma_kinds_in_turn(0, 9, machine + timer, devices);
    if resources.has_vfio() {
        assert(resources.vfio_devices().len() == resources.pci_config->0.vfio_devices->0.len());
    }
    assert(are_in_turn(vfio) && kinds_between(10, 10, vfio));
    lemma_lacks_later(machine + timer, devices);
    assert(are_apart(machine + timer + devices, vfio));
    lemma_apart_in_turn(machine + timer + devices, vfio);
    assert(are_in_turn(legacy) && kinds_between(1, 1, legacy));
    assert(lacks_late(vfio));
    lemma_lacks_in_turn(machine + timer + devices, vfio);
    assert(are_apart(machine + timer + devices + vfio, legacy));
    lemma_apart_in_turn(machine + timer + devices + vfio, legacy);
    lemma_launch_in_turn(resources);
    lemma_launch_is_apart(machine + timer + devices + vfio, legacy, launch);
    lemma_apart_in_turn(machine + timer + devices + vfio + legacy, launch);
    assert(are_apart(boot_plan(resources), resume));
    lemma_apart_in_turn(boot_plan(resources), resume);
    assert(boot_and_run_plan(resources) =~= boot_plan(resources) + resume);
}

/// Nothing among the tasks is part of attaching the legacy devices or the device that tells of clones.
spec fn lacks_late(tasks: Seq<Task>) -> bool {
    forall|a: int|
        0 <= a < tasks.len() ==> (part_of(#[trigger] tasks[a]) matches Some((kind, _)) ==> kind != 1
            && kind != 2)
}

proof fn lemma_lacks_in_turn(first: Seq<Task>, rest: Seq<Task>)
    requires
        lacks_late(first),
        lacks_late(rest),
    ensures
        lacks_late(first + rest),
{
    let all = first + rest;
    assert forall|a: int| 0 <= a < all.len() implies (part_of(#[trigger] all[a]) matches Some(
        (kind, _),
    ) ==> kind != 1 && kind != 2) by {
        if a < first.len() {
            assert(all[a] == first[a]);
        } else {
            assert(all[a] == rest[a - first.len()]);
        }
    }
}

proof fn lemma_lacks_later(first: Seq<Task>, devices: Seq<Task>)
    requires
        kinds_between(0, 0, first),
        kinds_between(5, 9, devices),
    ensures
        lacks_late(first + devices),
{
    assert(lacks_late(first) && lacks_late(devices));
    lemma_lacks_in_turn(first, devices);
}

proof fn lemma_launch_in_turn(resources: VmResources)
    ensures
        are_in_turn(launch_plan(resources)),
        kinds_between(2, 2, launch_plan(resources)),
{
    let vmgenid = vmgenid_plan();
    let configure = seq![Task::Host(Action::ConfigureSystem)];
    let gdb = tasks_if(
        resources.gdb is Some && resources.gdb->0.socket,
        seq![Task::Host(Action::StartGdb)],
    );
    let start = start_plan();
    assert(are_in_turn(vmgenid) && kinds_between(2, 2, vmgenid));
    assert(are_in_turn(configure) && kinds_between(2, 2, configure) && are_apart(
        vmgenid,
        configure,
    ));
    lemma_apart_in_turn(vmgenid, configure);
    lemma_kinds_in_turn(2, 2, vmgenid, configure);
    assert(are_in_turn(gdb) && kinds_between(2, 2, gdb) && are_apart(vmgenid + configure, gdb));
    lemma_apart_in_turn(vmgenid + configure, gdb);
    lemma_kinds_in_turn(2, 2, vmgenid + configure, gdb);
    assert(are_in_turn(start) && kinds_between(2, 2, start) && are_apart(
        vmgenid + configure + gdb,
        start,
    ));
    lemma_apart_in_turn(vmgenid + configure + gdb, start);
    lemma_kinds_in_turn(2, 2, vmgenid + configure + gdb, start);
}

proof fn lemma_launch_is_apart(before: Seq<Task>, legacy: Seq<Task>, launch: Seq<Task>)
    requires
        lacks_late(before),
        kinds_between(1, 1, legacy),
        kinds_between(2, 2, launch),
    ensures
        are_apart(before + legacy, launch),
{
    let first = before + legacy;
    assert forall|a: int, b: int| 0 <= a < first.len() && 0 <= b < launch.len() implies part_of(
        #[trigger] first[a],
    ) is None || part_of(first[a]) != part_of(#[trigger] launch[b]) by {
        if a < before.len() {
            assert(first[a] == before[a]);
        } else {
            assert(first[a] == legacy[a - before.len()]);
        }
    }
}

proof fn lemma_restoration_in_turn(resources: VmResources, snapshot: SnapshotInfo)
    ensures
        are_in_turn(snapshot_plan(resources, snapshot)),
{
    let vmm = create_vmm_plan(
        resources.arch,
        resources.spec_pci_enabled(false),
        resources.vcpu_count,
        Capabilities::Snapshot,
    );
    let tsc = match saved_tsc(resources.arch, snapshot) {
        Some(khz) => seq![restore_task(RestoreAction::CheckTscScaling { khz })],
        None => seq![],
    };
    let vcpus = seq![Task::PlanVcpuRestore];
    let resume = resume_plan(!snapshot.has_uffd);
    lemma_monitor_in_turn(
        resources.arch,
        resources.spec_pci_enabled(false),
        resources.vcpu_count,
        Capabilities::Snapshot,
    );
    assert(are_in_turn(tsc) && kinds_between(4, 4, tsc) && are_apart(vmm, tsc));
    lemma_apart_in_turn(vmm, tsc);
    assert(are_in_turn(vcpus) && kinds_between(3, 3, vcpus));
    assert(are_apart(vmm + tsc, vcpus)) by {
        assert forall|a: int, b: int|
            0 <= a < (vmm + tsc).len() && 0 <= b < vcpus.len() implies part_of(
            #[trigger] (vmm + tsc)[a],
        ) is None || part_of((vmm + tsc)[a]) != part_of(#[trigger] vcpus[b]) by {
            if a < vmm.len() {
                assert((vmm + tsc)[a] == vmm[a]);
            } else {
                assert((vmm + tsc)[a] == tsc[a - vmm.len()]);
            }
        }
    }
    lemma_apart_in_turn(vmm + tsc, vcpus);
    assert(are_in_turn(resume) && kinds_between(11, 10, resume));
    assert(are_apart(vmm + tsc + vcpus, resume));
    lemma_apart_in_turn(vmm + tsc + vcpus, resume);
}

/// Whatever the host reports, a machine that boots has each thing done step by step: of two steps of
/// one thing that the host is asked for, the one whose turn it is first comes first, and none comes
/// twice but those that can repeat.
pub proof fn law_boot_steps_come_in_turn(
    input: BuildInput,
    build: BuildModel,
    outcomes: Seq<Outcome>,
    i: int,
    j: int,
)
    requires
        boots(input, build),
        is_run(input, build, outcomes),
        0 <= i < j < outcomes.len(),
    ensures
        in_turn(
            Task::Host(asked(input, build, outcomes)[i]),
            Task::Host(asked(input, build, outcomes)[j]),
        ),
{
    lemma_boot_build(input);
    lemma_boot_in_turn(input.resources);
    lemma_asked_in_turn(input, build, outcomes, i, j);
}

/// Whatever the host reports, a restored machine has each thing done step by step: of two steps of one
/// thing that the host is asked for, the one whose turn it is first comes first, and none comes twice
/// but those that can repeat.
pub proof fn law_restoration_steps_come_in_turn(
    input: BuildInput,
    outcomes: Seq<Outcome>,
    i: int,
    j: int,
)
    requires
        can_restore(input),
        is_run(input, snapshot_build(input), outcomes),
        0 <= i < j < outcomes.len(),
    ensures
        in_turn(
            Task::Host(asked(input, snapshot_build(input), outcomes)[i]),
            Task::Host(asked(input, snapshot_build(input), outcomes)[j]),
        ),
{
    lemma_snapshot_build(input);
    lemma_restoration_in_turn(input.resources, input.source->Snapshot_0);
    lemma_asked_in_turn(input, snapshot_build(input), outcomes, i, j);
}

proof fn lemma_run_in_turn(input: BuildInput, build: BuildModel, outcomes: Seq<Outcome>)
    requires
        is_build_of(input, build),
        is_run(input, build, outcomes),
        are_in_turn(build.todo),
    ensures
        are_in_turn(run(input, build, outcomes).todo),
    decreases outcomes.len(),
{
    if outcomes.len() > 0 {
        law_step_keeps_build(input, build, outcomes[0]);
        lemma_step_in_turn(input, build, outcomes[0], build.todo[0]);
        lemma_run_in_turn(
            input,
            step(input, build, outcomes[0]),
            outcomes.drop_first(),
        );
    }
}

/// The arguments of a root device are on the command line before any work on that device: when the host
/// is asked for it, none are left to put there.
pub proof fn law_root_arguments_come_before_their_device(
    input: BuildInput,
    build: BuildModel,
    outcomes: Seq<Outcome>,
    k: int,
    i: usize,
)
    requires
        boots(input, build),
        is_run(input, build, outcomes),
        0 <= k < outcomes.len(),
        asked(input, build, outcomes)[k] is Attach,
        asked(input, build, outcomes)[k]->Attach_0 == DeviceHandle::Block(i),
    ensures
        !run(input, build, outcomes.take(k)).todo.contains(Task::RootArguments(i)),
{
    let now = run(input, build, outcomes.take(k));
    lemma_boot_build(input);
    lemma_boot_in_turn(input.resources);
    lemma_run_before(input, build, outcomes, k);
    lemma_run_in_turn(input, build, outcomes.take(k));
    assert forall|b: int| 0 <= b < now.todo.len() implies #[trigger] now.todo[b]
        != Task::RootArguments(i) by {
        assert(now.todo[0] == Task::Host(asked(input, build, outcomes)[k]));
        if b > 0 {
            assert(is_over_before(now.todo[0], now.todo[b]));
        }
    }
}

/// The action belongs to starting a machine whose devices are all there.
pub open spec fn is_start(action: Action) -> bool {
    action is StartVcpus || action is ApplySeccompFilter || action is SubscribeVmm || action is ResumeVm
}

/// A machine is booted in stages, whatever it has and whatever the host reports: guest memory with the
/// kernel in it, the monitor, what a debugger needs, the boot timer, the virtio devices from the balloon
/// to the source of entropy, the devices that are passed through, the legacy devices, the device that
/// tells of clones, the system, the debugger, the vCPUs, the filter of the monitor, the event manager,
/// and last of all, where that is wanted, letting it run.
pub proof fn law_boot_goes_through_its_stages(
    input: BuildInput,
    build: BuildModel,
    outcomes: Seq<Outcome>,
    i: int,
    j: int,
)
    requires
        boots(input, build),
        is_run(input, build, outcomes),
        0 <= i < j < outcomes.len(),
    ensures
        ({
            let first = asked(input, build, outcomes)[i];
            let second = asked(input, build, outcomes)[j];
            let late = first is Vmgenid || first is ConfigureSystem || first is StartGdb || is_start(
                first,
            );
            &&& !(second is AllocateGuestMemory)
            &&& second is LoadKernel ==> first is AllocateGuestMemory
            &&& second is LoadInitrd ==> first is AllocateGuestMemory || first is LoadKernel
            &&& second is GetCpuTemplate ==> first is AllocateGuestMemory || first is LoadKernel
                || first is LoadInitrd
            &&& second is Vmm ==> first is AllocateGuestMemory || first is LoadKernel || first
                is LoadInitrd || first is GetCpuTemplate || first is Vmm
            &&& second is AttachDebugInfo || second is CloneVcpuFds || second is AttachBootTimer
                ==> !(first is Attach || first is CreatePassthroughDevice || first is Vfio || first
                is Legacy || late)
            &&& second is AttachDebugInfo ==> !(first is CloneVcpuFds)
            &&& second is AttachDebugInfo || second is CloneVcpuFds ==> !(first is AttachBootTimer)
            &&& second is Attach ==> !(first is CreatePassthroughDevice || first is Vfio || first
                is Legacy || late)
            &&& second matches Action::Attach(later, _) ==> (first matches Action::Attach(
                earlier,
                _,
            ) ==> match earlier {
                DeviceHandle::Balloon => true,
                DeviceHandle::Block(_) => !(later is Balloon),
                DeviceHandle::Net(_) => !(later is Balloon) && !(later is Block),
                DeviceHandle::Vsock => later is Vsock || later is Entropy,
                DeviceHandle::Entropy => later is Entropy,
            })
            &&& second is CreatePassthroughDevice ==> !(first is Vfio || first is Legacy || late)
            &&& second is Vfio ==> !(first is Legacy || late)
            &&& second is Legacy ==> !late
            &&& second is Vmgenid ==> !late || first is Vmgenid
            &&& second is ConfigureSystem ==> !(first is StartGdb || is_start(first))
            &&& second is StartGdb || second is StartVcpus ==> !is_start(first)
            &&& second is ApplySeccompFilter ==> !(first is SubscribeVmm || first is ResumeVm)
            &&& second is SubscribeVmm ==> !(first is ResumeVm)
        }),
{
    let first = asked(input, build, outcomes)[i];
    let second = asked(input, build, outcomes)[j];
    lemma_boot_build(input);
    law_boot_is_in_order(input);
    law_phases_in_order(true, input, build, outcomes, i, j);
    lemma_asked_once_of_boot(input, build, outcomes, first, i, j);
}

proof fn lemma_asked_once_of_boot(
    input: BuildInput,
    build: BuildModel,
    outcomes: Seq<Outcome>,
    action: Action,
    i: int,
    j: int,
)
    requires
        boots(input, build),
        is_run(input, build, outcomes),
        0 <= i < j < outcomes.len(),
        asked(input, build, outcomes)[i] == action,
    ensures
        is_only_planned(action) ==> asked(input, build, outcomes)[j] != action,
{
    if is_only_planned(action) {
        lemma_boot_build(input);
        lemma_boot_holds(input.resources, action);
        law_asked_once(action, input, build, outcomes, i, j);
    }
}

/// A machine is restored in stages, whatever it has and whatever the host reports: the monitor, the time
/// stamp counters, the vCPUs, the machine, its boot source, its devices, the serial device, the ACPI
/// devices, the word to the guest, the start of the vCPUs, the event manager, and the filter of the
/// monitor.
pub proof fn law_restoration_goes_through_its_stages(
    input: BuildInput,
    outcomes: Seq<Outcome>,
    i: int,
    j: int,
)
    requires
        can_restore(input),
        is_run(input, snapshot_build(input), outcomes),
        0 <= i < j < outcomes.len(),
    ensures
        ({
            let first = asked(input, snapshot_build(input), outcomes)[i];
            let second = asked(input, snapshot_build(input), outcomes)[j];
            &&& second is Vmm ==> first is Vmm
            &&& second is Restore || second is StartVcpus ==> !is_start(first)
            &&& second is SubscribeVmm ==> !(first is ApplySeccompFilter)
            &&& second matches Action::Restore(later) ==> (first matches Action::Restore(earlier)
                ==> match earlier {
                RestoreAction::CheckTscScaling { .. } | RestoreAction::SetTsc { .. } => true,
                RestoreAction::RestoreVcpu { .. } => !(later is CheckTscScaling) && !(later
                    is SetTsc),
                RestoreAction::RestoreVm => later is RestoreBootSource || later
                    is RestoreMmioDevices || later is EmulateSerialInit || later
                    is RestoreAcpiDevices || later is NotifyVmgenid,
                RestoreAction::RestoreBootSource => later is RestoreMmioDevices || later
                    is EmulateSerialInit || later is RestoreAcpiDevices || later is NotifyVmgenid,
                RestoreAction::RestoreMmioDevices { .. } => later is EmulateSerialInit || later
                    is RestoreAcpiDevices || later is NotifyVmgenid,
                RestoreAction::EmulateSerialInit => later is RestoreAcpiDevices || later
                    is NotifyVmgenid,
                RestoreAction::RestoreAcpiDevices => later is NotifyVmgenid,
                RestoreAction::NotifyVmgenid => false,
            })
        }),
{
    let build = snapshot_build(input);
    let first = asked(input, build, outcomes)[i];
    let second = asked(input, build, outcomes)[j];
    lemma_snapshot_build(input);
    law_restoration_is_in_order(input);
    law_run_keeps_build(input, build, outcomes);
    law_phases_in_order(false, input, build, outcomes, i, j);
    lemma_asked_once_of_restoration(input, outcomes, first, i, j);
    if is_only_planned(first) {
        law_restoration_is_as_saved(input, outcomes, first);
        assert(asked(input, build, outcomes).contains(first));
    }
    if is_only_planned(second) {
        law_restoration_is_as_saved(input, outcomes, second);
        assert(asked(input, build, outcomes).contains(second));
    }
}

proof fn lemma_asked_once_of_restoration(
    input: BuildInput,
    outcomes: Seq<Outcome>,
    action: Action,
    i: int,
    j: int,
)
    requires
        can_restore(input),
        is_run(input, snapshot_build(input), outcomes),
        0 <= i < j < outcomes.len(),
        asked(input, snapshot_build(input), outcomes)[i] == action,
    ensures
        is_only_planned(action) ==> asked(input, snapshot_build(input), outcomes)[j] != action,
{
    if is_only_planned(action) {
        lemma_snapshot_build(input);
        lemma_restoration_holds(input.resources, input.source->Snapshot_0, action);
        law_asked_once(action, input, snapshot_build(input), outcomes, i, j);
    }
}

} // verus!
