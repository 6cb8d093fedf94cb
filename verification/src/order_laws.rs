//! Devices are attached once, and in the order in which they are configured.
use crate::builder::boot_and_run_plan;
use crate::cmdline_laws::boots;
use crate::laws::{
    asked, at_most_once, is_only_planned, is_run, law_never_asked, law_run_keeps_build, never,
    planned, run,
};
use crate::model::{
    follow_up, is_build_of, law_step_keeps_build, learn, settle, step, BuildModel,
};
use crate::recipe::{
    boot_plan, boot_timer_plan, devices_plan, guest_plan, launch_plan, machine_plan,
    passthrough_plan, platform_plan, tasks_if,
};
use crate::recipe_laws::{
    asked_exactly_once, is_vhost_user, lemma_asked_once, lemma_boot_build, lemma_contained_in_turn,
    lemma_device_is_planned, lemma_devices_are_planned, transport_step,
};
use crate::resources::{BlockDevice, BuildInput, DeviceHandle, VmResources};
use crate::root::root_arguments;
use crate::task::{Action, AttachAction, Capabilities, Outcome, Task, VfioAction};
use crate::virtio::{block_plan, blocks_plan, nets_plan, virtio_plan};
use crate::vmm::create_vmm_plan;
use vstd::prelude::*;

verus! {

/// The device that the task is about, where there can be more than one of its kind: the kind, and the
/// position in the configuration.
pub open spec fn device_place(task: Task) -> Option<(int, int)> {
    match task {
        Task::RootArguments(i) => Some((1, i as int)),
        Task::Host(Action::Attach(DeviceHandle::Block(i), _)) => Some((1, i as int)),
        Task::Host(Action::Attach(DeviceHandle::Net(i), _)) => Some((2, i as int)),
        Task::Host(Action::Vfio(i, _)) => Some((3, i as int)),
        _ => None,
    }
}

/// The tasks are not about two devices of one kind of which the first is configured after the second.
pub open spec fn is_not_after(first: Task, second: Task) -> bool {
    match (device_place(first), device_place(second)) {
        (Some((kind, i)), Some((other, j))) => kind == other ==> i <= j,
        _ => true,
    }
}

/// No task is about a device that is configured before one that an earlier task is about.
pub open spec fn devices_in_order(tasks: Seq<Task>) -> bool {
    forall|a: int, b: int|
        0 <= a <= b < tasks.len() ==> is_not_after(#[trigger] tasks[a], #[trigger] tasks[b])
}

/// None of the tasks is about a device that is configured before that of the given task.
pub open spec fn none_before(task: Task, tasks: Seq<Task>) -> bool {
    forall|b: int| 0 <= b < tasks.len() ==> is_not_after(task, #[trigger] tasks[b])
}

/// The tasks are about the device of the given task, or about none.
pub open spec fn about_same(task: Task, tasks: Seq<Task>) -> bool {
    forall|a: int|
        0 <= a < tasks.len() ==> device_place(#[trigger] tasks[a]) is None || device_place(tasks[a])
            == device_place(task)
}

proof fn lemma_same_in_turn(task: Task, first: Seq<Task>, rest: Seq<Task>)
    requires
        about_same(task, first),
        none_before(task, rest),
        devices_in_order(rest),
    ensures
        devices_in_order(first + rest),
        none_before(task, first + rest),
{
    let all = first + rest;
    assert forall|a: int, b: int| 0 <= a <= b < all.len() implies is_not_after(
        #[trigger] all[a],
        #[trigger] all[b],
    ) by {
        if a < first.len() {
            assert(all[a] == first[a]);
        } else {
            assert(all[a] == rest[a - first.len()]);
        }
        if b < first.len() {
            assert(all[b] == first[b]);
        } else {
            assert(all[b] == rest[b - first.len()]);
        }
    }
}

proof fn lemma_follow_up_is_about_same(
    input: BuildInput,
    build: BuildModel,
    action: Action,
    outcome: Outcome,
)
    ensures
        about_same(Task::Host(action), follow_up(input, build, action, outcome)),
{
}

proof fn lemma_planned_is_about_none(input: BuildInput, build: BuildModel, task: Task, about: Task)
    ensures
        about_same(about, planned(input, build, task)),
{
}

proof fn lemma_settle_devices(input: BuildInput, build: BuildModel, task: Task)
    requires
        devices_in_order(build.todo),
        none_before(task, build.todo),
    ensures
        devices_in_order(settle(input, build).todo),
        none_before(task, settle(input, build).todo),
    decreases build.todo.len(),
{
    if build.todo.len() > 0 {
        let rest = build.todo.drop_first();
        let first = build.todo[0];
        assert(devices_in_order(rest));
        assert(none_before(task, rest));
        match first {
            Task::RootArguments(i) => {
                let (cmdline, err) = root_arguments(
                    build.cmdline->0,
                    input.resources.block@[i as int],
                );
                lemma_settle_devices(
                    input,
                    BuildModel { todo: rest, cmdline: Some(cmdline), ..build },
                    task,
                );
            },
            Task::PlanPci | Task::PlanLegacyDevices => {
                lemma_planned_is_about_none(input, build, first, task);
                lemma_same_in_turn(task, planned(input, build, first), rest);
            },
            Task::PlanVcpuRestore => {
                lemma_planned_is_about_none(input, build, first, task);
                lemma_same_in_turn(task, planned(input, build, first), rest);
                lemma_settle_devices(input, BuildModel { todo: rest, ..build }, task);
            },
            Task::RequireFilter(_) => {
                lemma_settle_devices(input, BuildModel { todo: rest, ..build }, task);
            },
            _ => {},
        }
    }
}

proof fn lemma_step_devices(input: BuildInput, build: BuildModel, outcome: Outcome)
    requires
        is_build_of(input, build),
        build.verdict is Running,
        devices_in_order(build.todo),
    ensures
        devices_in_order(step(input, build, outcome).todo),
        none_before(build.todo[0], step(input, build, outcome).todo),
{
    let action = build.todo[0]->Host_0;
    let later = build.todo.drop_first();
    assert forall|b: int| 0 <= b < later.len() implies is_not_after(
        build.todo[0],
        #[trigger] later[b],
    ) by {
        assert(later[b] == build.todo[b + 1]);
    }
    if !(outcome is Failed) {
        let followed = follow_up(input, build, action, outcome);
        lemma_follow_up_is_about_same(input, build, action, outcome);
        assert(build.todo[0] == Task::Host(action));
        lemma_same_in_turn(build.todo[0], followed, later);
        lemma_settle_devices(
            input,
            BuildModel { todo: followed + later, ..learn(build, outcome) },
            build.todo[0],
        );
    }
}

/// Where the devices are in order among the tasks, the host is asked to work on them in order: of two
/// of one kind, all work on the one that is configured first comes before any on the other.
pub proof fn law_devices_in_order(
    input: BuildInput,
    build: BuildModel,
    outcomes: Seq<Outcome>,
    a: int,
    b: int,
)
    requires
        is_build_of(input, build),
        is_run(input, build, outcomes),
        devices_in_order(build.todo),
        0 <= a <= b < outcomes.len(),
    ensures
        is_not_after(
            Task::Host(asked(input, build, outcomes)[a]),
            Task::Host(asked(input, build, outcomes)[b]),
        ),
    decreases outcomes.len(),
{
    let next = step(input, build, outcomes[0]);
    let rest = outcomes.drop_first();
    let all = asked(input, build, outcomes);
    law_step_keeps_build(input, build, outcomes[0]);
    lemma_step_devices(input, build, outcomes[0]);
    law_run_keeps_build(input, build, outcomes);
    assert(build.todo[0] == Task::Host(all[0]));
    if a > 0 {
        law_devices_in_order(input, next, rest, a - 1, b - 1);
        assert(all[a] == asked(input, next, rest)[a - 1]);
        assert(all[b] == asked(input, next, rest)[b - 1]);
    } else if b > 0 {
        lemma_none_before_later(input, next, rest, build.todo[0], b - 1);
        assert(all[b] == asked(input, next, rest)[b - 1]);
    }
}

/// Work on a device that is configured earlier does not come back.
proof fn lemma_none_before_later(
    input: BuildInput,
    build: BuildModel,
    outcomes: Seq<Outcome>,
    task: Task,
    b: int,
)
    requires
        is_build_of(input, build),
        is_run(input, build, outcomes),
        devices_in_order(build.todo),
        none_before(task, build.todo),
        0 <= b < outcomes.len(),
    ensures
        is_not_after(task, Task::Host(asked(input, build, outcomes)[b])),
    decreases outcomes.len(),
{
    let next = step(input, build, outcomes[0]);
    let rest = outcomes.drop_first();
    let all = asked(input, build, outcomes);
    let action = build.todo[0]->Host_0;
    let later = build.todo.drop_first();
    law_step_keeps_build(input, build, outcomes[0]);
    law_run_keeps_build(input, build, outcomes);
    lemma_step_devices(input, build, outcomes[0]);
    assert(build.todo[0] == Task::Host(all[0]));
    assert(is_not_after(task, build.todo[0]));
    if b > 0 {
        if !(outcomes[0] is Failed) {
            let followed = follow_up(input, build, action, outcomes[0]);
            let open = BuildModel { todo: followed + later, ..learn(build, outcomes[0]) };
            lemma_follow_up_is_about_same(input, build, action, outcomes[0]);
            assert forall|k: int| 0 <= k < later.len() implies is_not_after(
                build.todo[0],
                #[trigger] later[k],
            ) by {
                assert(later[k] == build.todo[k + 1]);
            }
            lemma_same_in_turn(build.todo[0], followed, later);
            assert(none_before(task, open.todo)) by {
                assert forall|k: int| 0 <= k < open.todo.len() implies is_not_after(
                    task,
                    #[trigger] open.todo[k],
                ) by {
                    if k < followed.len() {
                        assert(open.todo[k] == followed[k]);
                    } else {
                        assert(open.todo[k] == build.todo[k - followed.len() + 1]);
                    }
                }
            }
            lemma_settle_devices(input, open, task);
        }
        lemma_none_before_later(input, next, rest, task, b - 1);
        assert(all[b] == asked(input, next, rest)[b - 1]);
    }
}

/// The kinds of devices that the tasks are about go up to the given one.
spec fn kinds_until(end: int, tasks: Seq<Task>) -> bool {
    forall|a: int|
        0 <= a < tasks.len() ==> (device_place(#[trigger] tasks[a]) matches Some((kind, _)) ==> kind
            <= end)
}

/// The kinds of devices that the tasks are about start at the given one.
spec fn kinds_from(start: int, tasks: Seq<Task>) -> bool {
    forall|a: int|
        0 <= a < tasks.len() ==> (device_place(#[trigger] tasks[a]) matches Some((kind, _)) ==> start
            <= kind)
}

/// The tasks are about no device of which there can be more than one.
spec fn about_none(tasks: Seq<Task>) -> bool {
    forall|a: int| 0 <= a < tasks.len() ==> device_place(#[trigger] tasks[a]) is None
}

proof fn lemma_kinds_in_turn(first: Seq<Task>, k: int, rest: Seq<Task>, m: int)
    requires
        k <= m,
        devices_in_order(first),
        kinds_until(k, first),
        devices_in_order(rest),
        kinds_from(k + 1, rest),
        kinds_until(m, rest),
    ensures
        devices_in_order(first + rest),
        kinds_until(m, first + rest),
{
    let all = first + rest;
    assert forall|a: int, b: int| 0 <= a <= b < all.len() implies is_not_after(
        #[trigger] all[a],
        #[trigger] all[b],
    ) by {
        if a < first.len() {
            assert(all[a] == first[a]);
        } else {
            assert(all[a] == rest[a - first.len()]);
        }
        if b < first.len() {
            assert(all[b] == first[b]);
        } else {
            assert(all[b] == rest[b - first.len()]);
        }
    }
    assert forall|a: int| 0 <= a < all.len() implies (device_place(#[trigger] all[a]) matches Some(
        (kind, _),
    ) ==> kind <= m) by {
        if a < first.len() {
            assert(all[a] == first[a]);
        } else {
            assert(all[a] == rest[a - first.len()]);
        }
    }
}

proof fn lemma_none_behind(first: Seq<Task>, k: int, rest: Seq<Task>)
    requires
        devices_in_order(first),
        kinds_until(k, first),
        about_none(rest),
    ensures
        devices_in_order(first + rest),
        kinds_until(k, first + rest),
{
    lemma_kinds_in_turn(first, k, rest, k);
}

proof fn lemma_blocks_devices(blocks: Seq<BlockDevice>, pci: bool)
    requires
        blocks.len() <= usize::MAX,
    ensures
        devices_in_order(blocks_plan(blocks, pci)),
        forall|a: int|
            0 <= a < blocks_plan(blocks, pci).len() ==> (device_place(
                #[trigger] blocks_plan(blocks, pci)[a],
            ) matches Some((kind, i)) && kind == 1 && i < blocks.len()),
    decreases blocks.len(),
{
    if blocks.len() > 0 {
        let before = blocks_plan(blocks.drop_last(), pci);
        let last = block_plan(blocks.len() - 1, blocks.last(), pci);
        let all = before + last;
        lemma_blocks_devices(blocks.drop_last(), pci);
        assert forall|a: int| 0 <= a < last.len() implies device_place(#[trigger] last[a]) == Some(
            (1int, blocks.len() - 1),
        ) by {}
        assert forall|a: int| 0 <= a < all.len() implies (device_place(
            #[trigger] all[a],
        ) matches Some((kind, i)) && kind == 1 && i < blocks.len()) by {
            if a < before.len() {
                assert(all[a] == before[a]);
            } else {
                assert(all[a] == last[a - before.len()]);
            }
        }
        assert forall|a: int, b: int| 0 <= a <= b < all.len() implies is_not_after(
            #[trigger] all[a],
            #[trigger] all[b],
        ) by {
            if b < before.len() {
                assert(all[a] == before[a] && all[b] == before[b]);
            } else {
                assert(all[b] == last[b - before.len()]);
            }
        }
    }
}

proof fn lemma_nets_devices(count: nat, pci: bool)
    requires
        count <= usize::MAX,
    ensures
        devices_in_order(nets_plan(count, pci)),
        forall|a: int|
            0 <= a < nets_plan(count, pci).len() ==> (device_place(
                #[trigger] nets_plan(count, pci)[a],
            ) matches Some((kind, i)) && kind == 2 && i < count),
    decreases count,
{
    if count > 0 {
        let before = nets_plan((count - 1) as nat, pci);
        let last = virtio_plan(DeviceHandle::Net((count - 1) as usize), pci, false);
        let all = before + last;
        lemma_nets_devices((count - 1) as nat, pci);
        assert forall|a: int| 0 <= a < last.len() implies device_place(#[trigger] last[a]) == Some(
            (2int, count - 1),
        ) by {}
        assert forall|a: int| 0 <= a < all.len() implies (device_place(
            #[trigger] all[a],
        ) matches Some((kind, i)) && kind == 2 && i < count) by {
            if a < before.len() {
                assert(all[a] == before[a]);
            } else {
                assert(all[a] == last[a - before.len()]);
            }
        }
        assert forall|a: int, b: int| 0 <= a <= b < all.len() implies is_not_after(
            #[trigger] all[a],
            #[trigger] all[b],
        ) by {
            if b < before.len() {
                assert(all[a] == before[a] && all[b] == before[b]);
            } else {
                assert(all[b] == last[b - before.len()]);
            }
        }
    }
}

proof fn lemma_virtio_devices(resources: VmResources, pci: bool)
    ensures
        devices_in_order(devices_plan(resources, pci)),
        kinds_until(2, devices_plan(resources, pci)),
{
    let balloon = tasks_if(
        resources.balloon is Some,
        virtio_plan(DeviceHandle::Balloon, pci, false),
    );
    let blocks = blocks_plan(resources.block@, pci);
    let nets = nets_plan(resources.net@.len(), pci);
    let vsock = tasks_if(resources.vsock is Some, virtio_plan(DeviceHandle::Vsock, pci, false));
    let entropy = tasks_if(
        resources.entropy is Some,
        virtio_plan(DeviceHandle::Entropy, pci, false),
    );
    assert(resources.block@.len() == resources.block.len());
    assert(resources.net@.len() == resources.net.len());
    lemma_blocks_devices(resources.block@, pci);
    lemma_nets_devices(resources.net@.len(), pci);
    assert(about_none(balloon) && about_none(vsock) && about_none(entropy));
    lemma_kinds_in_turn(balloon, 0, blocks, 1);
    lemma_kinds_in_turn(balloon + blocks, 1, nets, 2);
    lemma_none_behind(balloon + blocks + nets, 2, vsock);
    lemma_none_behind(balloon + blocks + nets + vsock, 2, entropy);
}

proof fn lemma_others_are_about_none(resources: VmResources, pci: bool)
    ensures
        about_none(machine_plan(resources, pci)),
        about_none(boot_timer_plan(resources)),
        about_none(platform_plan(resources)),
        about_none(launch_plan(resources)),
{
    let vmm = create_vmm_plan(
        resources.arch,
        pci,
        resources.vcpu_count,
        Capabilities::CpuTemplate,
    );
    assert(about_none(vmm));
    assert(about_none(guest_plan() + vmm));
}

proof fn lemma_vfio_devices(resources: VmResources)
    ensures
        devices_in_order(passthrough_plan(resources)),
        kinds_from(3, passthrough_plan(resources)),
        kinds_until(3, passthrough_plan(resources)),
{
    let plan = passthrough_plan(resources);
    if resources.has_vfio() {
        assert(resources.vfio_devices().len() == resources.pci_config->0.vfio_devices->0.len());
        assert forall|a: int, b: int| 0 <= a <= b < plan.len() implies is_not_after(
            #[trigger] plan[a],
            #[trigger] plan[b],
        ) by {}
    }
}

proof fn lemma_boot_devices(resources: VmResources)
    ensures
        devices_in_order(boot_plan(resources)),
        devices_in_order(boot_and_run_plan(resources)),
{
    let pci = resources.spec_pci_enabled(true);
    let machine = machine_plan(resources, pci);
    let timer = boot_timer_plan(resources);
    let devices = devices_plan(resources, pci);
    let vfio = passthrough_plan(resources);
    let legacy = platform_plan(resources);
    let resume = seq![Task::Host(Action::ResumeVm)];
    lemma_others_are_about_none(resources, pci);
    lemma_virtio_devices(resources, pci);
    lemma_vfio_devices(resources);
    lemma_none_behind(machine, 0, timer);
    assert(kinds_from(1, devices)) by {
        assert forall|a: int| 0 <= a < devices.len() implies (device_place(
            #[trigger] devices[a],
        ) matches Some((kind, _)) ==> 1 <= kind) by {}
    }
    lemma_kinds_in_turn(machine + timer, 0, devices, 2);
    lemma_kinds_in_turn(machine + timer + devices, 2, vfio, 3);
    lemma_none_behind(machine + timer + devices + vfio, 3, legacy);
    lemma_none_behind(machine + timer + devices + vfio + legacy, 3, launch_plan(resources));
    assert(about_none(resume));
    lemma_none_behind(boot_plan(resources), 3, resume);
    assert(boot_and_run_plan(resources) =~= boot_plan(resources) + resume);
}

/// The devices of a machine that boots are attached, or passed through, in the order in which they are
/// configured: of two block devices, two network devices, or two that are passed through, all work on
/// the one that is configured first comes before any on the other.
pub proof fn law_boot_attaches_in_order(
    input: BuildInput,
    build: BuildModel,
    outcomes: Seq<Outcome>,
    a: int,
    b: int,
    kind: int,
    i: int,
    j: int,
)
    requires
        boots(input, build),
        is_run(input, build, outcomes),
        0 <= a < outcomes.len(),
        0 <= b < outcomes.len(),
        device_place(Task::Host(asked(input, build, outcomes)[a])) == Some((kind, i)),
        device_place(Task::Host(asked(input, build, outcomes)[b])) == Some((kind, j)),
        i < j,
    ensures
        a < b,
{
    lemma_boot_build(input);
    lemma_boot_devices(input.resources);
    if b <= a {
        law_devices_in_order(input, build, outcomes, b, a);
    }
}

/// How often the action is left to do.
spec fn occurrences(action: Action, tasks: Seq<Task>) -> nat
    decreases tasks.len(),
{
    if tasks.len() == 0 {
        0
    } else {
        occurrences(action, tasks.drop_first()) + if tasks[0] == Task::Host(action) {
            1nat
        } else {
            0nat
        }
    }
}

proof fn lemma_occurrences_in_turn(action: Action, first: Seq<Task>, rest: Seq<Task>)
    ensures
        occurrences(action, first + rest) == occurrences(action, first) + occurrences(action, rest),
    decreases first.len(),
{
    if first.len() == 0 {
        assert(first + rest =~= rest);
    } else {
        lemma_occurrences_in_turn(action, first.drop_first(), rest);
        assert((first + rest).drop_first() =~= first.drop_first() + rest);
    }
}

proof fn lemma_occurs_never(action: Action, tasks: Seq<Task>)
    ensures
        never(action, tasks) <==> occurrences(action, tasks) == 0,
    decreases tasks.len(),
{
    if tasks.len() > 0 {
        let rest = tasks.drop_first();
        lemma_occurs_never(action, rest);
        if never(action, tasks) {
            assert(never(action, rest));
        }
        if occurrences(action, tasks) == 0 {
            assert forall|i: int| 0 <= i < tasks.len() implies #[trigger] tasks[i] != Task::Host(
                action,
            ) by {
                if i > 0 {
                    assert(rest[i - 1] == tasks[i]);
                }
            }
        }
    }
}

proof fn lemma_occurs_once(action: Action, tasks: Seq<Task>)
    ensures
        at_most_once(action, tasks) <==> occurrences(action, tasks) <= 1,
    decreases tasks.len(),
{
    if tasks.len() > 0 {
        let rest = tasks.drop_first();
        lemma_occurs_once(action, rest);
        lemma_occurs_never(action, rest);
        if at_most_once(action, tasks) {
            assert(at_most_once(action, rest));
            assert(tasks[0] == Task::Host(action) ==> never(action, rest)) by {
                assert forall|i: int|
                    0 <= i < rest.len() && tasks[0] == Task::Host(action) implies #[trigger] rest[i]
                    != Task::Host(action) by {
                    assert(rest[i] == tasks[i + 1]);
                }
            }
        }
        if occurrences(action, tasks) <= 1 {
            assert forall|i: int, j: int| 0 <= i < j < tasks.len() implies #[trigger] tasks[i]
                != Task::Host(action) || #[trigger] tasks[j] != Task::Host(action) by {
                assert(rest[j - 1] == tasks[j]);
                if i > 0 {
                    assert(rest[i - 1] == tasks[i]);
                }
            }
        }
    }
}

proof fn lemma_virtio_once(action: Action, device: DeviceHandle, pci: bool, is_vhost_user: bool)
    ensures
        occurrences(action, virtio_plan(device, pci, is_vhost_user)) <= 1,
        !(action matches Action::Attach(other, _) && other == device) ==> occurrences(
            action,
            virtio_plan(device, pci, is_vhost_user),
        ) == 0,
{
    let plan = virtio_plan(device, pci, is_vhost_user);
    lemma_occurs_once(action, plan);
    lemma_occurs_never(action, plan);
    assert(at_most_once(action, plan));
}

proof fn lemma_blocks_once(action: Action, blocks: Seq<BlockDevice>, pci: bool)
    requires
        blocks.len() <= usize::MAX,
    ensures
        occurrences(action, blocks_plan(blocks, pci)) <= 1,
        !(action matches Action::Attach(DeviceHandle::Block(i), _) && i < blocks.len())
            ==> occurrences(action, blocks_plan(blocks, pci)) == 0,
    decreases blocks.len(),
{
    if blocks.len() > 0 {
        let i = (blocks.len() - 1) as usize;
        let block = blocks.last();
        let attach = virtio_plan(DeviceHandle::Block(i), pci, block.is_vhost_user);
        let root = seq![Task::RootArguments(i)];
        lemma_blocks_once(action, blocks.drop_last(), pci);
        lemma_virtio_once(action, DeviceHandle::Block(i), pci, block.is_vhost_user);
        lemma_occurs_never(action, root);
        lemma_occurrences_in_turn(action, root, attach);
        lemma_occurrences_in_turn(
            action,
            blocks_plan(blocks.drop_last(), pci),
            block_plan(blocks.len() - 1, block, pci),
        );
    }
}

proof fn lemma_nets_once(action: Action, count: nat, pci: bool)
    requires
        count <= usize::MAX,
    ensures
        occurrences(action, nets_plan(count, pci)) <= 1,
        !(action matches Action::Attach(DeviceHandle::Net(i), _) && i < count) ==> occurrences(
            action,
            nets_plan(count, pci),
        ) == 0,
    decreases count,
{
    if count > 0 {
        let last = DeviceHandle::Net((count - 1) as usize);
        lemma_nets_once(action, (count - 1) as nat, pci);
        lemma_virtio_once(action, last, pci, false);
        lemma_occurrences_in_turn(
            action,
            nets_plan((count - 1) as nat, pci),
            virtio_plan(last, pci, false),
        );
    }
}

proof fn lemma_optional_once(action: Action, present: bool, device: DeviceHandle, pci: bool)
    ensures
        occurrences(action, tasks_if(present, virtio_plan(device, pci, false))) <= 1,
        !(action matches Action::Attach(other, _) && other == device) ==> occurrences(
            action,
            tasks_if(present, virtio_plan(device, pci, false)),
        ) == 0,
{
    lemma_virtio_once(action, device, pci, false);
}

proof fn lemma_devices_once(action: Action, resources: VmResources, pci: bool)
    ensures
        occurrences(action, devices_plan(resources, pci)) <= 1,
        !(action is Attach) ==> occurrences(action, devices_plan(resources, pci)) == 0,
{
    let balloon = tasks_if(
        resources.balloon is Some,
        virtio_plan(DeviceHandle::Balloon, pci, false),
    );
    let blocks = blocks_plan(resources.block@, pci);
    let nets = nets_plan(resources.net@.len(), pci);
    let vsock = tasks_if(resources.vsock is Some, virtio_plan(DeviceHandle::Vsock, pci, false));
    let entropy = tasks_if(
        resources.entropy is Some,
        virtio_plan(DeviceHandle::Entropy, pci, false),
    );
    assert(resources.block@.len() == resources.block.len());
    assert(resources.net@.len() == resources.net.len());
    lemma_optional_once(action, resources.balloon is Some, DeviceHandle::Balloon, pci);
    lemma_blocks_once(action, resources.block@, pci);
    lemma_nets_once(action, resources.net@.len(), pci);
    lemma_optional_once(action, resources.vsock is Some, DeviceHandle::Vsock, pci);
    lemma_optional_once(action, resources.entropy is Some, DeviceHandle::Entropy, pci);
    lemma_occurrences_in_turn(action, balloon, blocks);
    lemma_occurrences_in_turn(action, balloon + blocks, nets);
    lemma_occurrences_in_turn(action, balloon + blocks + nets, vsock);
    lemma_occurrences_in_turn(action, balloon + blocks + nets + vsock, entropy);
}

/// The action is about a device that is configured.
spec fn is_about_device(action: Action) -> bool {
    ||| action == Action::AttachBootTimer
    ||| action is Attach
    ||| action is Vfio
}

proof fn lemma_others_never(action: Action, resources: VmResources, pci: bool)
    requires
        is_about_device(action),
    ensures
        never(action, machine_plan(resources, pci)),
        never(action, platform_plan(resources)),
        never(action, launch_plan(resources)),
{
    let vmm = create_vmm_plan(
        resources.arch,
        pci,
        resources.vcpu_count,
        Capabilities::CpuTemplate,
    );
    assert(never(action, vmm));
    assert(never(action, guest_plan() + vmm));
}

proof fn lemma_parts_once(action: Action, resources: VmResources)
    requires
        is_about_device(action),
    ensures
        occurrences(action, boot_timer_plan(resources)) == if action == Action::AttachBootTimer
            && resources.boot_timer {
            1nat
        } else {
            0nat
        },
        occurrences(action, passthrough_plan(resources)) <= 1,
        !(action is Vfio) ==> occurrences(action, passthrough_plan(resources)) == 0,
{
    let timer = boot_timer_plan(resources);
    let vfio = passthrough_plan(resources);
    lemma_occurs_once(action, timer);
    lemma_occurs_never(action, timer);
    lemma_occurs_once(action, vfio);
    lemma_occurs_never(action, vfio);
    if resources.boot_timer {
        assert(timer[0] == Task::Host(Action::AttachBootTimer));
    }
    if resources.has_vfio() {
        assert(resources.vfio_devices().len() == resources.pci_config->0.vfio_devices->0.len());
        assert(at_most_once(action, vfio));
    }
}

proof fn lemma_boot_once(action: Action, resources: VmResources)
    requires
        is_about_device(action),
    ensures
        at_most_once(action, boot_plan(resources)),
        at_most_once(action, boot_and_run_plan(resources)),
        action == Action::AttachBootTimer && !resources.boot_timer ==> never(
            action,
            boot_and_run_plan(resources),
        ) && never(action, boot_plan(resources)),
{
    let pci = resources.spec_pci_enabled(true);
    let machine = machine_plan(resources, pci);
    let timer = boot_timer_plan(resources);
    let devices = devices_plan(resources, pci);
    let vfio = passthrough_plan(resources);
    let legacy = platform_plan(resources);
    let launch = launch_plan(resources);
    let resume = seq![Task::Host(Action::ResumeVm)];
    lemma_others_never(action, resources, pci);
    lemma_occurs_never(action, machine);
    lemma_occurs_never(action, legacy);
    lemma_occurs_never(action, launch);
    lemma_occurs_never(action, resume);
    lemma_parts_once(action, resources);
    lemma_devices_once(action, resources, pci);
    lemma_occurrences_in_turn(action, machine, timer);
    lemma_occurrences_in_turn(action, machine + timer, devices);
    lemma_occurrences_in_turn(action, machine + timer + devices, vfio);
    lemma_occurrences_in_turn(action, machine + timer + devices + vfio, legacy);
    lemma_occurrences_in_turn(action, machine + timer + devices + vfio + legacy, launch);
    lemma_occurrences_in_turn(action, boot_plan(resources), resume);
    assert(boot_and_run_plan(resources) =~= boot_plan(resources) + resume);
    lemma_occurs_once(action, boot_plan(resources));
    lemma_occurs_never(action, boot_plan(resources));
    lemma_occurs_once(action, boot_and_run_plan(resources));
    lemma_occurs_never(action, boot_and_run_plan(resources));
}

proof fn lemma_device_asked_once(
    input: BuildInput,
    build: BuildModel,
    outcomes: Seq<Outcome>,
    action: Action,
)
    requires
        boots(input, build),
        is_run(input, build, outcomes),
        run(input, build, outcomes).verdict is Built,
        is_about_device(action),
        is_only_planned(action),
        boot_plan(input.resources).contains(Task::Host(action)),
    ensures
        asked_exactly_once(action, asked(input, build, outcomes)),
{
    let resume = seq![Task::Host(Action::ResumeVm)];
    lemma_boot_build(input);
    lemma_boot_once(action, input.resources);
    assert(boot_and_run_plan(input.resources) =~= boot_plan(input.resources) + resume);
    lemma_contained_in_turn(boot_plan(input.resources), resume, Task::Host(action));
    lemma_asked_once(action, input, build, outcomes);
}

/// A machine is booted only with every virtio device of its configuration subscribed to the event
/// manager once, and once on its transport.
pub proof fn law_every_device_is_attached_once(
    input: BuildInput,
    build: BuildModel,
    outcomes: Seq<Outcome>,
    device: DeviceHandle,
)
    requires
        boots(input, build),
        is_run(input, build, outcomes),
        run(input, build, outcomes).verdict is Built,
        input.resources.has_device(device),
    ensures
        asked_exactly_once(
            Action::Attach(device, AttachAction::Subscribe),
            asked(input, build, outcomes),
        ),
        asked_exactly_once(
            Action::Attach(device, transport_step(input.resources, device)),
            asked(input, build, outcomes),
        ),
{
    let resources = input.resources;
    let pci = resources.spec_pci_enabled(true);
    let plan = virtio_plan(device, pci, is_vhost_user(resources, device));
    let subscribe = Action::Attach(device, AttachAction::Subscribe);
    let transport = Action::Attach(device, transport_step(resources, device));
    assert(plan[0] == Task::Host(subscribe));
    assert(plan[1] == Task::Host(transport));
    lemma_device_is_planned(resources, pci, device, plan[0]);
    lemma_device_is_planned(resources, pci, device, plan[1]);
    lemma_devices_are_planned(resources, plan[0]);
    lemma_devices_are_planned(resources, plan[1]);
    lemma_device_asked_once(input, build, outcomes, subscribe);
    lemma_device_asked_once(input, build, outcomes, transport);
}

/// A machine is booted only with every device that is passed through given one number on the PCI bus.
pub proof fn law_every_passthrough_is_added_once(
    input: BuildInput,
    build: BuildModel,
    outcomes: Seq<Outcome>,
    i: usize,
)
    requires
        boots(input, build),
        is_run(input, build, outcomes),
        run(input, build, outcomes).verdict is Built,
        i < input.resources.vfio_devices().len(),
    ensures
        asked_exactly_once(
            Action::Vfio(i, VfioAction::NextDeviceId),
            asked(input, build, outcomes),
        ),
{
    let plan = passthrough_plan(input.resources);
    let action = Action::Vfio(i, VfioAction::NextDeviceId);
    assert(plan[i + 1] == Task::Host(action));
    lemma_devices_are_planned(input.resources, Task::Host(action));
    lemma_device_asked_once(input, build, outcomes, action);
}

/// The boot timer is attached only where it is configured, and a machine for which it is configured is
/// booted only with the boot timer attached once.
pub proof fn law_boot_timer_is_attached_where_configured(
    input: BuildInput,
    build: BuildModel,
    outcomes: Seq<Outcome>,
)
    requires
        boots(input, build),
        is_run(input, build, outcomes),
    ensures
        asked(input, build, outcomes).contains(Action::AttachBootTimer)
            ==> input.resources.boot_timer,
        input.resources.boot_timer && run(input, build, outcomes).verdict is Built
            ==> asked_exactly_once(Action::AttachBootTimer, asked(input, build, outcomes)),
{
    let resources = input.resources;
    let action = Action::AttachBootTimer;
    lemma_boot_build(input);
    lemma_boot_once(action, resources);
    if !resources.boot_timer {
        law_never_asked(action, input, build, outcomes);
    } else if run(input, build, outcomes).verdict is Built {
        let timer = boot_timer_plan(resources);
        let machine = machine_plan(resources, resources.spec_pci_enabled(true));
        let devices = devices_plan(resources, resources.spec_pci_enabled(true));
        let vfio = passthrough_plan(resources);
        let legacy = platform_plan(resources);
        assert(timer[0] == Task::Host(action));
        lemma_contained_in_turn(machine, timer, timer[0]);
        lemma_contained_in_turn(machine + timer, devices, timer[0]);
        lemma_contained_in_turn(machine + timer + devices, vfio, timer[0]);
        lemma_contained_in_turn(machine + timer + devices + vfio, legacy, timer[0]);
        lemma_contained_in_turn(
            machine + timer + devices + vfio + legacy,
            launch_plan(resources),
            timer[0],
        );
        lemma_device_asked_once(input, build, outcomes, action);
    }
}

} // verus!
