//! What holds of the recipes by which microVMs are built.
use crate::builder::boot_and_run_plan;
use crate::laws::{
    asked, at_most_once, device_phase, filtering_action, from_phase, in_order, is_guarded,
    is_only_planned, is_run, law_asked_is_allowed, law_asked_once, law_built_did_everything,
    law_built_did_what_followed, law_built_did_what_was_planned, law_closing_action_is_last,
    law_counter_is_set_only_where_required, law_earlier_work_is_done, law_memory_and_vcpus_stay,
    law_never_asked, law_no_thread_without_filter, law_phases_in_order, law_run_keeps_build,
    lemma_guarded_in_turn, lemma_never_in_turn, lemma_run_after, lemma_run_before,
    lemma_run_in_order, never, of_phase, only_last, phase, planned, run,
};
use crate::layout::{leaves_device_area, spec_pci_layout};
use crate::model::{
    are_tasks_of, begin, fits, is_build_of, is_task_of, lemma_begin, lemma_boot_plan,
    lemma_boot_prepared, lemma_snapshot_plan, settle, BuildModel,
};
use crate::recipe::{
    boot_plan, boot_timer_plan, debug_plan, devices_plan, guest_plan, launch_plan, machine_plan,
    passthrough_plan, platform_plan, restore_task, resume_plan, saved_tsc, snapshot_plan, tasks_if,
    tsc_plan,
};
use crate::resources::{
    is_one_of, Arch, BlockDevice, BuildInput, DeviceHandle, MemoryRegion, ThreadCategory,
    VmResources,
};
use crate::task::{
    Action, AttachAction, Capabilities, Outcome, RestoreAction, Task, VfioAction, VmmAction,
};
use crate::vfio::{dma_task, vfio_device_plan};
use crate::virtio::{block_plan, blocks_plan, nets_plan, virtio_plan};
use crate::vmm::{create_vmm_plan, pci_setup_plan, port_io_plan};
use vstd::prelude::*;

verus! {

/// A machine can be booted from the input.
pub open spec fn can_boot(input: BuildInput) -> bool {
    &&& input.source is Boot
    &&& input.resources.boot_config is Some
}

/// A machine can be restored from the input.
pub open spec fn can_restore(input: BuildInput) -> bool {
    &&& input.source is Snapshot
    &&& input.spec_pci_enabled() ==> leaves_device_area(
        input.source->Snapshot_0.last_addr,
        input.resources.layout,
    )
}

/// The build that boots a machine, as it begins.
pub open spec fn boot_build(input: BuildInput) -> BuildModel {
    settle(input, begin(input, boot_plan(input.resources)))
}

/// The build that boots a machine and lets it run, as it begins.
pub open spec fn boot_and_run_build(input: BuildInput) -> BuildModel {
    settle(input, begin(input, boot_and_run_plan(input.resources)))
}

/// The build that restores a machine, as it begins.
pub open spec fn snapshot_build(input: BuildInput) -> BuildModel {
    settle(input, begin(input, snapshot_plan(input.resources, input.source->Snapshot_0)))
}

/// The action is part of attaching a device other than the boot timer.
pub open spec fn is_device_work(action: Action) -> bool {
    action is Attach || action is CreatePassthroughDevice || action is Vfio || action is Legacy
        || action is Vmgenid
}

/// No task is of a later phase than the given one.
pub open spec fn until_phase(boot: bool, end: nat, tasks: Seq<Task>) -> bool {
    forall|i: int| 0 <= i < tasks.len() ==> phase(boot, #[trigger] tasks[i]) <= end
}

proof fn lemma_ordered_in_turn(boot: bool, a: nat, b: nat, first: Seq<Task>, rest: Seq<Task>)
    requires
        a <= b,
        in_order(boot, first),
        until_phase(boot, a, first),
        in_order(boot, rest),
        from_phase(boot, a, rest),
        until_phase(boot, b, rest),
    ensures
        in_order(boot, first + rest),
        until_phase(boot, b, first + rest),
{
    let all = first + rest;
    assert forall|i: int, j: int| 0 <= i <= j < all.len() implies phase(boot, #[trigger] all[i])
        <= phase(boot, #[trigger] all[j]) by {
        if i >= first.len() {
            assert(all[i] == rest[i - first.len()]);
        }
        if j >= first.len() {
            assert(all[j] == rest[j - first.len()]);
        }
    }
}

proof fn lemma_blocks_phase(boot: bool, blocks: Seq<BlockDevice>, pci: bool)
    ensures
        of_phase(boot, 9, blocks_plan(blocks, pci)),
    decreases blocks.len(),
{
    if blocks.len() > 0 {
        lemma_blocks_phase(boot, blocks.drop_last(), pci);
        assert(of_phase(boot, 9, block_plan(blocks.len() - 1, blocks.last(), pci)));
    }
}

proof fn lemma_nets_phase(boot: bool, count: nat, pci: bool)
    ensures
        of_phase(boot, 10, nets_plan(count, pci)),
    decreases count,
{
    if count > 0 {
        lemma_nets_phase(boot, (count - 1) as nat, pci);
        assert(of_phase(
            boot,
            10,
            virtio_plan(DeviceHandle::Net((count - 1) as usize), pci, false),
        ));
    }
}

proof fn lemma_uniform(boot: bool, at: nat, tasks: Seq<Task>)
    requires
        of_phase(boot, at, tasks),
    ensures
        in_order(boot, tasks),
        from_phase(boot, at, tasks),
        until_phase(boot, at, tasks),
{
}

proof fn lemma_from_in_turn(boot: bool, start: nat, first: Seq<Task>, rest: Seq<Task>)
    requires
        from_phase(boot, start, first),
        from_phase(boot, start, rest),
    ensures
        from_phase(boot, start, first + rest),
{
    let all = first + rest;
    assert forall|i: int| 0 <= i < all.len() implies start <= phase(boot, #[trigger] all[i]) by {
        if i >= first.len() {
            assert(all[i] == rest[i - first.len()]);
        }
    }
}

proof fn lemma_optional_phase(boot: bool, present: bool, device: DeviceHandle, pci: bool)
    ensures
        of_phase(
            boot,
            device_phase(device),
            tasks_if(present, virtio_plan(device, pci, false)),
        ),
{
}

proof fn lemma_devices_in_order(boot: bool, resources: VmResources, pci: bool)
    ensures
        in_order(boot, devices_plan(resources, pci)),
        from_phase(boot, 8, devices_plan(resources, pci)),
        until_phase(boot, 12, devices_plan(resources, pci)),
{
    let balloon = tasks_if(
        resources.balloon is Some,
        virtio_plan(DeviceHandle::Balloon, pci, false),
    );
    let blocks = blocks_plan(resources.block@, pci);
    let nets = nets_plan(resources.net@.len(), pci);
    let vsock = tasks_if(resources.vsock is Some, virtio_plan(DeviceHandle::Vsock, pci, false));
    let entropy = tasks_if(
        resources.entropy is Some,
        virtio_plan(DeviceHandle::Entropy, pci, false),
    );
    lemma_optional_phase(boot, resources.balloon is Some, DeviceHandle::Balloon, pci);
    lemma_blocks_phase(boot, resources.block@, pci);
    lemma_nets_phase(boot, resources.net@.len(), pci);
    lemma_optional_phase(boot, resources.vsock is Some, DeviceHandle::Vsock, pci);
    lemma_optional_phase(boot, resources.entropy is Some, DeviceHandle::Entropy, pci);
    lemma_five_in_turn(boot, balloon, blocks, nets, vsock, entropy);
}

/// Five groups of tasks, each of the phase behind that of the one before, are in order.
proof fn lemma_five_in_turn(
    boot: bool,
    a: Seq<Task>,
    b: Seq<Task>,
    c: Seq<Task>,
    d: Seq<Task>,
    e: Seq<Task>,
)
    requires
        of_phase(boot, 8, a),
        of_phase(boot, 9, b),
        of_phase(boot, 10, c),
        of_phase(boot, 11, d),
        of_phase(boot, 12, e),
    ensures
        in_order(boot, a + b + c + d + e),
        from_phase(boot, 8, a + b + c + d + e),
        until_phase(boot, 12, a + b + c + d + e),
{
    lemma_uniform(boot, 8, a);
    lemma_uniform(boot, 9, b);
    lemma_uniform(boot, 10, c);
    lemma_uniform(boot, 11, d);
    lemma_uniform(boot, 12, e);
    lemma_ordered_in_turn(boot, 8, 9, a, b);
    lemma_from_in_turn(boot, 8, a, b);
    lemma_ordered_in_turn(boot, 9, 10, a + b, c);
    lemma_from_in_turn(boot, 8, a + b, c);
    lemma_ordered_in_turn(boot, 10, 11, a + b + c, d);
    lemma_from_in_turn(boot, 8, a + b + c, d);
    lemma_ordered_in_turn(boot, 11, 12, a + b + c + d, e);
    lemma_from_in_turn(boot, 8, a + b + c + d, e);
}

proof fn lemma_create_vmm_phase(
    boot: bool,
    arch: Arch,
    pci: bool,
    vcpu_count: u8,
    capabilities: Capabilities,
)
    ensures
        of_phase(boot, 4, create_vmm_plan(arch, pci, vcpu_count, capabilities)),
{
}

proof fn lemma_machine_in_order(resources: VmResources, pci: bool)
    ensures
        in_order(true, machine_plan(resources, pci)),
        until_phase(true, 6, machine_plan(resources, pci)),
{
    let vmm = create_vmm_plan(
        resources.arch,
        pci,
        resources.vcpu_count,
        Capabilities::CpuTemplate,
    );
    lemma_create_vmm_phase(
        true,
        resources.arch,
        pci,
        resources.vcpu_count,
        Capabilities::CpuTemplate,
    );
    lemma_ordered_in_turn(true, 3, 4, guest_plan(), vmm);
    lemma_ordered_in_turn(
        true,
        4,
        6,
        guest_plan() + vmm,
        tasks_if(resources.gdb is Some, debug_plan()),
    );
}

proof fn lemma_launch_in_order(resources: VmResources)
    ensures
        in_order(true, launch_plan(resources)),
        from_phase(true, 16, launch_plan(resources)),
        until_phase(true, 29, launch_plan(resources)),
{
}

/// What comes before the launch of a machine.
pub open spec fn devices_ready_plan(resources: VmResources) -> Seq<Task> {
    let pci = resources.spec_pci_enabled(true);
    machine_plan(resources, pci) + boot_timer_plan(resources) + devices_plan(resources, pci)
        + passthrough_plan(resources) + platform_plan(resources)
}

proof fn lemma_devices_ready_in_order(resources: VmResources)
    ensures
        in_order(true, devices_ready_plan(resources)),
        until_phase(true, 15, devices_ready_plan(resources)),
{
    let pci = resources.spec_pci_enabled(true);
    let machine = machine_plan(resources, pci);
    let timer = boot_timer_plan(resources);
    let devices = devices_plan(resources, pci);
    let vfio = passthrough_plan(resources);
    let legacy = platform_plan(resources);
    lemma_machine_in_order(resources, pci);
    lemma_devices_in_order(true, resources, pci);
    lemma_ordered_in_turn(true, 6, 7, machine, timer);
    lemma_ordered_in_turn(true, 7, 12, machine + timer, devices);
    lemma_ordered_in_turn(true, 12, 14, machine + timer + devices, vfio);
    lemma_ordered_in_turn(true, 14, 15, machine + timer + devices + vfio, legacy);
}

proof fn lemma_boot_plan_in_order(resources: VmResources)
    ensures
        in_order(true, boot_plan(resources)),
        until_phase(true, 29, boot_plan(resources)),
{
    lemma_devices_ready_in_order(resources);
    lemma_launch_in_order(resources);
    lemma_ordered_in_turn(true, 15, 29, devices_ready_plan(resources), launch_plan(resources));
}

proof fn lemma_launch_tail(resources: VmResources)
    ensures
        ({
            let launch = launch_plan(resources);
            let m = launch.len() as int;
            &&& m >= 5
            &&& launch[m - 1] == Task::Host(Action::SubscribeVmm)
            &&& launch[m - 2] == Task::Host(Action::ApplySeccompFilter)
            &&& launch[m - 3] == Task::RequireFilter(ThreadCategory::Vmm)
            &&& launch[m - 4] == Task::Host(Action::StartVcpus)
        }),
{
}

proof fn lemma_tail(first: Seq<Task>, rest: Seq<Task>)
    requires
        rest.len() >= 5,
    ensures
        ({
            let all = first + rest;
            let n = all.len() as int;
            let m = rest.len() as int;
            &&& n >= 5
            &&& all[n - 1] == rest[m - 1]
            &&& all[n - 2] == rest[m - 2]
            &&& all[n - 3] == rest[m - 3]
            &&& all[n - 4] == rest[m - 4]
        }),
{
}

/// A plan of booting ends with the start of the vCPUs, the filter and the subscription.
proof fn lemma_boot_plan_tail(resources: VmResources)
    ensures
        ({
            let plan = boot_plan(resources);
            let n = plan.len() as int;
            &&& n >= 5
            &&& plan[n - 1] == Task::Host(Action::SubscribeVmm)
            &&& plan[n - 2] == Task::Host(Action::ApplySeccompFilter)
            &&& plan[n - 3] == Task::RequireFilter(ThreadCategory::Vmm)
            &&& plan[n - 4] == Task::Host(Action::StartVcpus)
        }),
{
    lemma_launch_tail(resources);
    lemma_tail(devices_ready_plan(resources), launch_plan(resources));
}

/// A plan of booting begins with guest memory and holds the boot timer where there is one.
proof fn lemma_boot_plan_head(resources: VmResources)
    ensures
        boot_plan(resources)[0] == Task::Host(Action::AllocateGuestMemory),
        resources.boot_timer ==> boot_plan(resources).contains(Task::Host(Action::AttachBootTimer)),
{
    let pci = resources.spec_pci_enabled(true);
    let machine = machine_plan(resources, pci);
    let timer = boot_timer_plan(resources);
    let rest = devices_plan(resources, pci) + passthrough_plan(resources) + platform_plan(resources)
        + launch_plan(resources);
    assert(machine[0] == Task::Host(Action::AllocateGuestMemory));
    if resources.boot_timer {
        let k = machine.len() as int;
        assert(timer.len() == 1);
        assert((machine + timer)[k] == Task::Host(Action::AttachBootTimer));
        assert(boot_plan(resources)[k] == Task::Host(Action::AttachBootTimer));
    }
}

/// What a plan with such an end holds once, and how it stands with one more task behind it.
proof fn lemma_closing_of_boot(plan: Seq<Task>)
    requires
        in_order(true, plan),
        until_phase(true, 29, plan),
        plan.len() >= 5,
        plan[plan.len() - 1] == Task::Host(Action::SubscribeVmm),
        plan[plan.len() - 2] == Task::Host(Action::ApplySeccompFilter),
        plan[plan.len() - 3] == Task::RequireFilter(ThreadCategory::Vmm),
        plan[plan.len() - 4] == Task::Host(Action::StartVcpus),
    ensures
        never(Action::ResumeVm, plan),
        only_last(Action::SubscribeVmm, plan),
        ({
            let longer = plan.push(Task::Host(Action::ResumeVm));
            &&& in_order(true, longer)
            &&& only_last(Action::ResumeVm, longer)
            &&& at_most_once(Action::ApplySeccompFilter, longer)
            &&& at_most_once(Action::SubscribeVmm, longer)
            &&& longer.contains(Task::Host(Action::StartVcpus))
            &&& longer.contains(Task::Host(Action::ApplySeccompFilter))
            &&& longer.contains(Task::Host(Action::SubscribeVmm))
        }),
{
    let n = plan.len() as int;
    let longer = plan.push(Task::Host(Action::ResumeVm));
    assert(longer[n - 1] == Task::Host(Action::SubscribeVmm));
    assert(longer[n - 2] == Task::Host(Action::ApplySeccompFilter));
    assert(longer[n - 4] == Task::Host(Action::StartVcpus));
    assert forall|i: int| 0 <= i < longer.len() && #[trigger] longer[i] == Task::Host(
        Action::SubscribeVmm,
    ) implies i == n - 1 by {
        if i <= n - 2 {
            assert(phase(true, plan[i]) <= phase(true, plan[n - 2]));
        }
    }
    assert forall|i: int| 0 <= i < n - 1 implies #[trigger] plan[i] != Task::Host(
        Action::SubscribeVmm,
    ) by {
        assert(longer[i] == plan[i]);
    }
    assert forall|i: int| 0 <= i < longer.len() && #[trigger] longer[i] == Task::Host(
        Action::ApplySeccompFilter,
    ) implies i == n - 2 by {
        if i <= n - 4 {
            assert(phase(true, plan[i]) <= phase(true, plan[n - 4]));
        }
    }
    assert forall|i: int, j: int| 0 <= i <= j < longer.len() implies phase(
        true,
        #[trigger] longer[i],
    ) <= phase(true, #[trigger] longer[j]) by {
        if j < n {
            assert(phase(true, plan[i]) <= phase(true, plan[j]));
        } else if i < n {
            assert(phase(true, plan[i]) <= 29);
        }
    }
}

proof fn lemma_begin_at_host(input: BuildInput, plan: Seq<Task>)
    requires
        plan.len() > 0,
        plan[0] is Host,
    ensures
        settle(input, begin(input, plan)) == begin(input, plan),
{
}

pub(crate) proof fn lemma_boot_build(input: BuildInput)
    requires
        can_boot(input),
    ensures
        boot_build(input) == begin(input, boot_plan(input.resources)),
        is_build_of(input, boot_build(input)),
        boot_and_run_build(input) == begin(input, boot_and_run_plan(input.resources)),
        is_build_of(input, boot_and_run_build(input)),
{
    let plan = boot_plan(input.resources);
    let longer = boot_and_run_plan(input.resources);
    lemma_boot_plan(input);
    lemma_boot_plan_head(input.resources);
    lemma_boot_plan_tail(input.resources);
    assert(longer[0] == plan[0]);
    lemma_begin_at_host(input, plan);
    lemma_begin_at_host(input, longer);
    assert(are_tasks_of(input, longer)) by {
        assert forall|i: int| 0 <= i < longer.len() implies is_task_of(
            input,
            #[trigger] longer[i],
        ) by {
            if i < plan.len() {
                assert(longer[i] == plan[i]);
            }
        }
    }
    lemma_boot_prepared(input, plan);
    lemma_boot_prepared(input, longer);
    lemma_begin(input, plan);
    lemma_begin(input, longer);
}

/// A machine is booted in the order of the phases: what the build that boots it has before it is in
/// order.
pub proof fn law_boot_is_in_order(input: BuildInput)
    requires
        can_boot(input),
    ensures
        is_build_of(input, boot_build(input)),
        boot_build(input).verdict is Running,
        in_order(true, boot_build(input).todo),
        is_build_of(input, boot_and_run_build(input)),
        boot_and_run_build(input).verdict is Running,
        in_order(true, boot_and_run_build(input).todo),
{
    lemma_boot_build(input);
    lemma_boot_plan_in_order(input.resources);
    lemma_boot_plan_tail(input.resources);
    lemma_closing_of_boot(boot_plan(input.resources));
}

/// The boot timer is the first device: the host is asked for no work on another one before it has
/// attached the boot timer.
pub proof fn law_boot_timer_is_first_device(input: BuildInput, outcomes: Seq<Outcome>, i: int)
    requires
        can_boot(input),
        input.resources.boot_timer,
        is_run(input, boot_build(input), outcomes),
        0 <= i < outcomes.len(),
        is_device_work(asked(input, boot_build(input), outcomes)[i]),
    ensures
        exists|j: int|
            0 <= j < i && #[trigger] asked(input, boot_build(input), outcomes)[j]
                == Action::AttachBootTimer && !(outcomes[j] is Failed),
{
    lemma_boot_build(input);
    lemma_boot_plan_in_order(input.resources);
    lemma_boot_plan_head(input.resources);
    law_earlier_work_is_done(
        true,
        input,
        boot_build(input),
        outcomes,
        Action::AttachBootTimer,
        i,
    );
}

/// The vCPUs of a booted machine start off paused: the build never lets them run.
pub proof fn law_boot_leaves_vcpus_paused(input: BuildInput, outcomes: Seq<Outcome>)
    requires
        can_boot(input),
        is_run(input, boot_build(input), outcomes),
    ensures
        !asked(input, boot_build(input), outcomes).contains(Action::ResumeVm),
{
    lemma_boot_build(input);
    lemma_boot_plan_in_order(input.resources);
    lemma_boot_plan_tail(input.resources);
    lemma_closing_of_boot(boot_plan(input.resources));
    law_never_asked(Action::ResumeVm, input, boot_build(input), outcomes);
}

/// A machine that is booted to run is let run in the end and not before, and building it succeeds
/// with that and not without.
pub proof fn law_machine_runs_in_the_end(input: BuildInput, outcomes: Seq<Outcome>)
    requires
        can_boot(input),
        is_run(input, boot_and_run_build(input), outcomes),
    ensures
        forall|i: int|
            0 <= i < outcomes.len() && #[trigger] asked(input, boot_and_run_build(input), outcomes)[i]
                == Action::ResumeVm ==> i == outcomes.len() - 1,
        run(input, boot_and_run_build(input), outcomes).verdict is Built <==> outcomes.len() > 0
            && asked(input, boot_and_run_build(input), outcomes).last() == Action::ResumeVm
            && !(outcomes.last() is Failed),
{
    lemma_boot_build(input);
    lemma_boot_plan_in_order(input.resources);
    lemma_boot_plan_tail(input.resources);
    lemma_closing_of_boot(boot_plan(input.resources));
    law_closing_action_is_last(Action::ResumeVm, input, boot_and_run_build(input), outcomes);
}

/// The monitor is under its seccomp filter before the vCPUs run, and once it is, nothing is left to
/// do before that but to plug the monitor in.
pub proof fn law_filter_comes_before_running(input: BuildInput, outcomes: Seq<Outcome>, i: int)
    requires
        can_boot(input),
        is_run(input, boot_and_run_build(input), outcomes),
        0 <= i < outcomes.len(),
        asked(input, boot_and_run_build(input), outcomes)[i] == Action::ResumeVm,
    ensures
        exists|j: int|
            {
                &&& 0 <= j < i
                &&& #[trigger] asked(input, boot_and_run_build(input), outcomes)[j]
                    == Action::ApplySeccompFilter
                &&& !(outcomes[j] is Failed)
                &&& forall|k: int|
                    j < k < i ==> #[trigger] asked(input, boot_and_run_build(input), outcomes)[k]
                        == Action::SubscribeVmm
            },
{
    let build = boot_and_run_build(input);
    let all = asked(input, build, outcomes);
    lemma_boot_build(input);
    lemma_boot_plan_in_order(input.resources);
    lemma_boot_plan_tail(input.resources);
    lemma_closing_of_boot(boot_plan(input.resources));
    law_earlier_work_is_done(true, input, build, outcomes, Action::ApplySeccompFilter, i);
    let j = choose|j: int|
        0 <= j < i && #[trigger] all[j] == Action::ApplySeccompFilter && !(outcomes[j] is Failed);
    assert forall|k: int| j < k < i implies #[trigger] all[k] == Action::SubscribeVmm by {
        law_phases_in_order(true, input, build, outcomes, j, k);
        law_asked_once(Action::ApplySeccompFilter, input, build, outcomes, j, k);
        law_machine_runs_in_the_end(input, outcomes);
    }
}

proof fn lemma_launch_guarded(category: ThreadCategory, input: BuildInput)
    ensures
        is_guarded(input, category, launch_plan(input.resources)),
{
    let launch = launch_plan(input.resources);
    let m = launch.len() as int;
    assert(launch[m - 5] == Task::RequireFilter(ThreadCategory::Vcpu));
    lemma_launch_tail(input.resources);
    assert forall|k: int|
        0 <= k < m && #[trigger] launch[k] == Task::Host(filtering_action(category)) implies launch.take(
        k,
    ).contains(Task::RequireFilter(category)) by {
        match category {
            ThreadCategory::Vcpu => {
                assert(k == m - 4);
                assert(launch.take(k)[m - 5] == Task::RequireFilter(category));
            },
            ThreadCategory::Vmm => {
                assert(k == m - 2);
                assert(launch.take(k)[m - 3] == Task::RequireFilter(category));
            },
        }
    }
}

pub(crate) proof fn lemma_boot_guarded(category: ThreadCategory, input: BuildInput)
    ensures
        is_guarded(input, category, boot_plan(input.resources)),
        is_guarded(input, category, boot_and_run_plan(input.resources)),
{
    let plan = boot_plan(input.resources);
    let resume = seq![Task::Host(Action::ResumeVm)];
    let required = Task::RequireFilter(category);
    lemma_devices_ready_in_order(input.resources);
    lemma_launch_guarded(category, input);
    lemma_guarded_in_turn(
        input,
        category,
        devices_ready_plan(input.resources),
        launch_plan(input.resources),
    );
    let longer = boot_and_run_plan(input.resources);
    if !is_one_of(category.spec_name(), input.seccomp_filters@) {
        assert forall|k: int|
            0 <= k < longer.len() && #[trigger] longer[k] == Task::Host(
                filtering_action(category),
            ) implies longer.take(k).contains(required) by {
            assert(plan[k] == longer[k]);
            assert(longer.take(k) =~= plan.take(k));
        }
    }
}

/// The threads of a machine that boots are started, or the monitor goes on, only where there is a
/// filter for them.
pub proof fn law_boot_needs_filters(
    category: ThreadCategory,
    input: BuildInput,
    outcomes: Seq<Outcome>,
)
    requires
        can_boot(input),
        is_run(input, boot_build(input), outcomes),
        asked(input, boot_build(input), outcomes).contains(filtering_action(category)),
    ensures
        is_one_of(category.spec_name(), input.seccomp_filters@),
{
    lemma_boot_build(input);
    lemma_boot_guarded(category, input);
    law_no_thread_without_filter(category, input, boot_build(input), outcomes);
}

/// What comes before the machine and its devices are restored.
pub open spec fn vcpus_ready_plan(input: BuildInput) -> Seq<Task> {
    let resources = input.resources;
    create_vmm_plan(
        resources.arch,
        resources.spec_pci_enabled(false),
        resources.vcpu_count,
        Capabilities::Snapshot,
    ) + (match saved_tsc(resources.arch, input.source->Snapshot_0) {
        Some(khz) => seq![restore_task(RestoreAction::CheckTscScaling { khz })],
        None => seq![],
    }) + seq![Task::PlanVcpuRestore]
}

proof fn lemma_vcpus_ready_in_order(input: BuildInput)
    requires
        input.source is Snapshot,
    ensures
        in_order(false, vcpus_ready_plan(input)),
        until_phase(false, 20, vcpus_ready_plan(input)),
        vcpus_ready_plan(input)[0] is Host,
{
    let resources = input.resources;
    let vmm = create_vmm_plan(
        resources.arch,
        resources.spec_pci_enabled(false),
        resources.vcpu_count,
        Capabilities::Snapshot,
    );
    let tsc = match saved_tsc(resources.arch, input.source->Snapshot_0) {
        Some(khz) => seq![restore_task(RestoreAction::CheckTscScaling { khz })],
        None => seq![],
    };
    lemma_create_vmm_phase(
        false,
        resources.arch,
        resources.spec_pci_enabled(false),
        resources.vcpu_count,
        Capabilities::Snapshot,
    );
    lemma_ordered_in_turn(false, 4, 19, vmm, tsc);
    lemma_ordered_in_turn(false, 19, 20, vmm + tsc, seq![Task::PlanVcpuRestore]);
    assert(vmm[0] is Host);
}

pub(crate) proof fn lemma_snapshot_build(input: BuildInput)
    requires
        can_restore(input),
    ensures
        snapshot_build(input) == begin(
            input,
            snapshot_plan(input.resources, input.source->Snapshot_0),
        ),
        is_build_of(input, snapshot_build(input)),
        in_order(false, snapshot_build(input).todo),
{
    let before = vcpus_ready_plan(input);
    let resume = resume_plan(!input.source->Snapshot_0.has_uffd);
    let plan = snapshot_plan(input.resources, input.source->Snapshot_0);
    lemma_snapshot_plan(input);
    lemma_vcpus_ready_in_order(input);
    lemma_ordered_in_turn(false, 20, 30, before, resume);
    assert(plan == before + resume);
    lemma_begin_at_host(input, plan);
    lemma_begin(input, plan);
}

/// A machine is restored in the order of the phases: what the build that restores it has before it is
/// in order.
pub proof fn law_restoration_is_in_order(input: BuildInput)
    requires
        can_restore(input),
    ensures
        is_build_of(input, snapshot_build(input)),
        snapshot_build(input).verdict is Running,
        in_order(false, snapshot_build(input).todo),
{
    lemma_snapshot_build(input);
}

/// A restored guest is told that it was resumed from a snapshot before its vCPUs are started.
pub proof fn law_guest_is_notified_before_vcpus_start(
    input: BuildInput,
    outcomes: Seq<Outcome>,
    i: int,
)
    requires
        can_restore(input),
        is_run(input, snapshot_build(input), outcomes),
        0 <= i < outcomes.len(),
        asked(input, snapshot_build(input), outcomes)[i] == Action::StartVcpus,
    ensures
        exists|j: int|
            0 <= j < i && #[trigger] asked(input, snapshot_build(input), outcomes)[j]
                == Action::Restore(RestoreAction::NotifyVmgenid) && !(outcomes[j] is Failed),
{
    let plan = snapshot_plan(input.resources, input.source->Snapshot_0);
    let before = vcpus_ready_plan(input);
    let resume = resume_plan(!input.source->Snapshot_0.has_uffd);
    lemma_snapshot_build(input);
    assert(resume[5] == restore_task(RestoreAction::NotifyVmgenid));
    assert((before + resume)[before.len() as int + 5] == resume[5]);
    assert(plan.contains(restore_task(RestoreAction::NotifyVmgenid)));
    law_earlier_work_is_done(
        false,
        input,
        snapshot_build(input),
        outcomes,
        Action::Restore(RestoreAction::NotifyVmgenid),
        i,
    );
}

/// Applying the seccomp filter of the monitor is the last step of restoring a machine, and restoring
/// it succeeds with that and not without.
pub proof fn law_filter_is_last_of_restoration(input: BuildInput, outcomes: Seq<Outcome>)
    requires
        can_restore(input),
        is_run(input, snapshot_build(input), outcomes),
    ensures
        forall|i: int|
            0 <= i < outcomes.len() && #[trigger] asked(input, snapshot_build(input), outcomes)[i]
                == Action::ApplySeccompFilter ==> i == outcomes.len() - 1,
        run(input, snapshot_build(input), outcomes).verdict is Built <==> outcomes.len() > 0 && asked(
            input,
            snapshot_build(input),
            outcomes,
        ).last() == Action::ApplySeccompFilter && !(outcomes.last() is Failed),
{
    let before = vcpus_ready_plan(input);
    let resume = resume_plan(!input.source->Snapshot_0.has_uffd);
    lemma_snapshot_build(input);
    lemma_vcpus_ready_in_order(input);
    assert(only_last(Action::ApplySeccompFilter, resume));
    lemma_never_in_turn(Action::ApplySeccompFilter, before, resume);
    law_closing_action_is_last(
        Action::ApplySeccompFilter,
        input,
        snapshot_build(input),
        outcomes,
    );
}

/// The vCPUs of a restored machine start off paused: the build never lets them run.
pub proof fn law_restoration_leaves_vcpus_paused(input: BuildInput, outcomes: Seq<Outcome>)
    requires
        can_restore(input),
        is_run(input, snapshot_build(input), outcomes),
    ensures
        !asked(input, snapshot_build(input), outcomes).contains(Action::ResumeVm),
{
    let before = vcpus_ready_plan(input);
    let resume = resume_plan(!input.source->Snapshot_0.has_uffd);
    lemma_snapshot_build(input);
    lemma_vcpus_ready_in_order(input);
    lemma_never_in_turn(Action::ResumeVm, before, resume);
    law_never_asked(Action::ResumeVm, input, snapshot_build(input), outcomes);
}

pub(crate) proof fn lemma_snapshot_guarded(category: ThreadCategory, input: BuildInput)
    requires
        can_restore(input),
    ensures
        is_guarded(input, category, snapshot_build(input).todo),
{
    let before = vcpus_ready_plan(input);
    let resume = resume_plan(!input.source->Snapshot_0.has_uffd);
    lemma_snapshot_build(input);
    lemma_vcpus_ready_in_order(input);
    assert(resume[6] == Task::RequireFilter(ThreadCategory::Vcpu));
    assert(resume[9] == Task::RequireFilter(ThreadCategory::Vmm));
    assert forall|k: int|
        0 <= k < resume.len() && #[trigger] resume[k] == Task::Host(
            filtering_action(category),
        ) implies resume.take(k).contains(Task::RequireFilter(category)) by {
        match category {
            ThreadCategory::Vcpu => {
                assert(k == 7);
                assert(resume.take(k)[6] == Task::RequireFilter(category));
            },
            ThreadCategory::Vmm => {
                assert(k == 10);
                assert(resume.take(k)[9] == Task::RequireFilter(category));
            },
        }
    }
    lemma_guarded_in_turn(input, category, before, resume);
}

/// The threads of a restored machine are started, or the monitor goes on, only where there is a
/// filter for them.
pub proof fn law_restoration_needs_filters(
    category: ThreadCategory,
    input: BuildInput,
    outcomes: Seq<Outcome>,
)
    requires
        can_restore(input),
        is_run(input, snapshot_build(input), outcomes),
        asked(input, snapshot_build(input), outcomes).contains(filtering_action(category)),
    ensures
        is_one_of(category.spec_name(), input.seccomp_filters@),
{
    lemma_snapshot_build(input);
    lemma_snapshot_guarded(category, input);
    law_no_thread_without_filter(category, input, snapshot_build(input), outcomes);
}

/// A machine that was saved without the frequency of its time stamp counter keeps that of the host:
/// the build neither asks for scaling nor sets the counter.
pub proof fn law_unsaved_tsc_is_left_alone(input: BuildInput, outcomes: Seq<Outcome>, i: int)
    requires
        can_restore(input),
        is_run(input, snapshot_build(input), outcomes),
        saved_tsc(input.resources.arch, input.source->Snapshot_0) is None,
        0 <= i < outcomes.len(),
    ensures
        !(asked(input, snapshot_build(input), outcomes)[i] matches Action::Restore(
            RestoreAction::CheckTscScaling { .. },
        )),
        !(asked(input, snapshot_build(input), outcomes)[i] matches Action::Restore(
            RestoreAction::SetTsc { .. },
        )),
{
    lemma_snapshot_build(input);
    law_asked_is_allowed(input, snapshot_build(input), outcomes, i);
}

/// A machine with a PCI bus has no virtio device attached over MMIO, and one without has no work on
/// such a bus done.
pub proof fn law_one_transport(
    input: BuildInput,
    build: BuildModel,
    outcomes: Seq<Outcome>,
    i: int,
)
    requires
        is_build_of(input, build),
        is_run(input, build, outcomes),
        0 <= i < outcomes.len(),
    ensures
        input.spec_pci_enabled() ==> !(asked(input, build, outcomes)[i] matches Action::Attach(
            _,
            AttachAction::RegisterMmio { .. },
        )),
        !input.spec_pci_enabled() ==> {
            &&& asked(input, build, outcomes)[i] matches Action::Attach(_, action)
                ==> action is Subscribe || action is RegisterMmio
            &&& !(asked(input, build, outcomes)[i] is Vfio)
            &&& !(asked(input, build, outcomes)[i] matches Action::Vmm(VmmAction::Pci(_)))
        },
{
    law_asked_is_allowed(input, build, outcomes, i);
}

pub(crate) proof fn lemma_contained_in_turn(first: Seq<Task>, rest: Seq<Task>, task: Task)
    requires
        first.contains(task) || rest.contains(task),
    ensures
        (first + rest).contains(task),
{
    let all = first + rest;
    if first.contains(task) {
        let i = choose|i: int| 0 <= i < first.len() && first[i] == task;
        assert(all[i] == task);
    } else {
        let i = choose|i: int| 0 <= i < rest.len() && rest[i] == task;
        assert(all[first.len() + i] == task);
    }
}

proof fn lemma_block_is_planned(blocks: Seq<BlockDevice>, pci: bool, i: int, task: Task)
    requires
        0 <= i < blocks.len(),
        block_plan(i, blocks[i], pci).contains(task),
    ensures
        blocks_plan(blocks, pci).contains(task),
    decreases blocks.len(),
{
    let before = blocks_plan(blocks.drop_last(), pci);
    let last = block_plan(blocks.len() - 1, blocks.last(), pci);
    if i < blocks.len() - 1 {
        lemma_block_is_planned(blocks.drop_last(), pci, i, task);
    }
    lemma_contained_in_turn(before, last, task);
}

proof fn lemma_net_is_planned(count: nat, pci: bool, i: int, task: Task)
    requires
        0 <= i < count,
        virtio_plan(DeviceHandle::Net(i as usize), pci, false).contains(task),
    ensures
        nets_plan(count, pci).contains(task),
    decreases count,
{
    let before = nets_plan((count - 1) as nat, pci);
    let last = virtio_plan(DeviceHandle::Net((count - 1) as usize), pci, false);
    if i < count - 1 {
        lemma_net_is_planned((count - 1) as nat, pci, i, task);
    }
    lemma_contained_in_turn(before, last, task);
}

/// Whether a process outside the monitor serves the device.
pub open spec fn is_vhost_user(resources: VmResources, device: DeviceHandle) -> bool {
    match device {
        DeviceHandle::Block(i) => resources.block@[i as int].is_vhost_user,
        _ => false,
    }
}

pub(crate) proof fn lemma_device_is_planned(resources: VmResources, pci: bool, device: DeviceHandle, task: Task)
    requires
        resources.has_device(device),
        virtio_plan(device, pci, is_vhost_user(resources, device)).contains(task),
    ensures
        devices_plan(resources, pci).contains(task),
{
    let balloon = tasks_if(
        resources.balloon is Some,
        virtio_plan(DeviceHandle::Balloon, pci, false),
    );
    let blocks = blocks_plan(resources.block@, pci);
    let nets = nets_plan(resources.net@.len(), pci);
    let vsock = tasks_if(resources.vsock is Some, virtio_plan(DeviceHandle::Vsock, pci, false));
    let entropy = tasks_if(
        resources.entropy is Some,
        virtio_plan(DeviceHandle::Entropy, pci, false),
    );
    match device {
        DeviceHandle::Block(i) => {
            let block = resources.block@[i as int];
            let attach = virtio_plan(device, pci, block.is_vhost_user);
            if block.root_device {
                lemma_contained_in_turn(seq![Task::RootArguments(i)], attach, task);
            }
            lemma_block_is_planned(resources.block@, pci, i as int, task);
        },
        DeviceHandle::Net(i) => {
            lemma_net_is_planned(resources.net@.len(), pci, i as int, task);
        },
        _ => {},
    }
    if balloon.contains(task) || blocks.contains(task) {
        lemma_contained_in_turn(balloon, blocks, task);
    }
    if (balloon + blocks).contains(task) || nets.contains(task) {
        lemma_contained_in_turn(balloon + blocks, nets, task);
    }
    if (balloon + blocks + nets).contains(task) || vsock.contains(task) {
        lemma_contained_in_turn(balloon + blocks + nets, vsock, task);
    }
    lemma_contained_in_turn(balloon + blocks + nets + vsock, entropy, task);
}

pub(crate) proof fn lemma_devices_are_planned(resources: VmResources, task: Task)
    requires
        devices_plan(resources, resources.spec_pci_enabled(true)).contains(task)
            || passthrough_plan(resources).contains(task),
    ensures
        boot_plan(resources).contains(task),
{
    let pci = resources.spec_pci_enabled(true);
    let before = machine_plan(resources, pci) + boot_timer_plan(resources);
    let devices = devices_plan(resources, pci);
    let vfio = passthrough_plan(resources);
    let legacy = platform_plan(resources);
    if devices.contains(task) {
        lemma_contained_in_turn(before, devices, task);
    }
    lemma_contained_in_turn(before + devices, vfio, task);
    lemma_contained_in_turn(before + devices + vfio, legacy, task);
    lemma_contained_in_turn(before + devices + vfio + legacy, launch_plan(resources), task);
}

/// The step by which a device comes to its transport: an address on the PCI bus where there is one,
/// and registration over MMIO otherwise.
pub open spec fn transport_step(resources: VmResources, device: DeviceHandle) -> AttachAction {
    if resources.spec_pci_enabled(true) {
        AttachAction::NextDeviceBdf
    } else {
        AttachAction::RegisterMmio { is_vhost_user: is_vhost_user(resources, device) }
    }
}

/// A machine is booted only with every virtio device of its configuration subscribed to the event
/// manager and on its transport.
pub proof fn law_every_device_is_attached(
    input: BuildInput,
    outcomes: Seq<Outcome>,
    device: DeviceHandle,
)
    requires
        can_boot(input),
        is_run(input, boot_build(input), outcomes),
        run(input, boot_build(input), outcomes).verdict is Built,
        input.resources.has_device(device),
    ensures
        asked(input, boot_build(input), outcomes).contains(
            Action::Attach(device, AttachAction::Subscribe),
        ),
        asked(input, boot_build(input), outcomes).contains(
            Action::Attach(device, transport_step(input.resources, device)),
        ),
{
    let resources = input.resources;
    let pci = resources.spec_pci_enabled(true);
    let plan = virtio_plan(device, pci, is_vhost_user(resources, device));
    let subscribe = Action::Attach(device, AttachAction::Subscribe);
    let transport = Action::Attach(device, transport_step(resources, device));
    lemma_boot_build(input);
    assert(plan[0] == Task::Host(subscribe));
    assert(plan[1] == Task::Host(transport));
    lemma_device_is_planned(resources, pci, device, plan[0]);
    lemma_device_is_planned(resources, pci, device, plan[1]);
    lemma_devices_are_planned(resources, plan[0]);
    lemma_devices_are_planned(resources, plan[1]);
    law_built_did_everything(input, boot_build(input), outcomes, subscribe);
    law_built_did_everything(input, boot_build(input), outcomes, transport);
}

/// A machine is booted only with its vCPUs started, the monitor under its filter and plugged in the
/// event manager.
pub proof fn law_booted_machine_is_started(input: BuildInput, outcomes: Seq<Outcome>)
    requires
        can_boot(input),
        is_run(input, boot_build(input), outcomes),
        run(input, boot_build(input), outcomes).verdict is Built,
    ensures
        asked(input, boot_build(input), outcomes).contains(Action::StartVcpus),
        asked(input, boot_build(input), outcomes).contains(Action::ApplySeccompFilter),
        asked(input, boot_build(input), outcomes).contains(Action::SubscribeVmm),
{
    let plan = boot_plan(input.resources);
    let n = plan.len() as int;
    lemma_boot_build(input);
    lemma_boot_plan_tail(input.resources);
    assert(plan.contains(plan[n - 1]) && plan.contains(plan[n - 2]) && plan.contains(plan[n - 4]));
    law_built_did_everything(input, boot_build(input), outcomes, Action::StartVcpus);
    law_built_did_everything(input, boot_build(input), outcomes, Action::ApplySeccompFilter);
    law_built_did_everything(input, boot_build(input), outcomes, Action::SubscribeVmm);
}

/// A machine is booted only with every device that is passed through given a number on the PCI bus.
pub proof fn law_every_passthrough_is_added(input: BuildInput, outcomes: Seq<Outcome>, i: usize)
    requires
        can_boot(input),
        is_run(input, boot_build(input), outcomes),
        run(input, boot_build(input), outcomes).verdict is Built,
        i < input.resources.vfio_devices().len(),
    ensures
        asked(input, boot_build(input), outcomes).contains(
            Action::Vfio(i, VfioAction::NextDeviceId),
        ),
{
    let plan = passthrough_plan(input.resources);
    let action = Action::Vfio(i, VfioAction::NextDeviceId);
    lemma_boot_build(input);
    assert(plan[i + 1] == Task::Host(action));
    lemma_devices_are_planned(input.resources, Task::Host(action));
    law_built_did_everything(input, boot_build(input), outcomes, action);
}

/// A machine is booted only with each region of guest memory within reach of each device that is
/// passed through, at its own address.
pub proof fn law_passthrough_reaches_memory(
    input: BuildInput,
    outcomes: Seq<Outcome>,
    i: usize,
    at: int,
    region: MemoryRegion,
)
    requires
        can_boot(input),
        is_run(input, boot_build(input), outcomes),
        run(input, boot_build(input), outcomes).verdict is Built,
        0 <= at < outcomes.len(),
        asked(input, boot_build(input), outcomes)[at] == Action::Vfio(i, VfioAction::NextDeviceId),
        run(input, boot_build(input), outcomes.take(at)).regions.contains(region),
    ensures
        asked(input, boot_build(input), outcomes).contains(
            Action::Vfio(
                i,
                VfioAction::DmaMap {
                    iova: region.start,
                    size: region.len,
                    user_addr: region.host_addr,
                },
            ),
        ),
{
    let build = boot_build(input);
    let now = run(input, build, outcomes.take(at));
    lemma_boot_build(input);
    lemma_run_before(input, build, outcomes, at);
    lemma_run_after(input, build, outcomes, at);
    assert(outcomes.skip(at)[0] == outcomes[at]);
    assert(fits(input, now.todo[0]->Host_0, outcomes[at]));
    let device_id = outcomes[at]->DeviceId_0;
    let followed = vfio_device_plan(i, device_id, now.regions);
    let k = choose|k: int| 0 <= k < now.regions.len() && now.regions[k] == region;
    assert(followed[4 + k] == dma_task(i, region));
    law_built_did_what_followed(input, build, outcomes, at, dma_task(i, region)->Host_0);
}

/// A machine with a PCI bus is booted only with the bus set up on the areas that guest memory leaves
/// to devices.
pub proof fn law_bus_is_set_up(input: BuildInput, outcomes: Seq<Outcome>, action: Action)
    requires
        can_boot(input),
        input.spec_pci_enabled(),
        is_run(input, boot_build(input), outcomes),
        run(input, boot_build(input), outcomes).verdict is Built,
        pci_setup_plan(
            spec_pci_layout(
                run(input, boot_build(input), outcomes).last_addr,
                input.resources.layout,
            ),
        ).contains(Task::Host(action)),
    ensures
        asked(input, boot_build(input), outcomes).contains(action),
{
    let build = boot_build(input);
    let resources = input.resources;
    let vmm = create_vmm_plan(
        resources.arch,
        true,
        resources.vcpu_count,
        Capabilities::CpuTemplate,
    );
    let machine = machine_plan(resources, true);
    lemma_boot_build(input);
    lemma_boot_plan_in_order(resources);
    lemma_bus_is_planned(
        resources.arch,
        resources.vcpu_count,
        Capabilities::CpuTemplate,
    );
    lemma_contained_in_turn(guest_plan(), vmm, Task::PlanPci);
    lemma_contained_in_turn(
        guest_plan() + vmm,
        tasks_if(resources.gdb is Some, debug_plan()),
        Task::PlanPci,
    );
    lemma_machine_is_planned(resources, Task::PlanPci);
    let at = law_built_did_what_was_planned(true, input, build, outcomes, Task::PlanPci);
    lemma_run_after(input, build, outcomes, at);
    law_memory_and_vcpus_stay(
        true,
        input,
        run(input, build, outcomes.take(at)),
        outcomes.skip(at),
    );
    assert(asked(input, build, outcomes).contains(action));
}

proof fn lemma_bus_is_planned(arch: Arch, vcpu_count: u8, capabilities: Capabilities)
    ensures
        create_vmm_plan(arch, true, vcpu_count, capabilities).contains(Task::PlanPci),
{
    let plan = create_vmm_plan(arch, true, vcpu_count, capabilities);
    if arch == Arch::X86_64 {
        assert(port_io_plan().len() == 7);
        assert(plan[14] == Task::PlanPci);
    } else {
        assert(plan[7] == Task::PlanPci);
    }
}

proof fn lemma_machine_is_planned(resources: VmResources, task: Task)
    requires
        machine_plan(resources, resources.spec_pci_enabled(true)).contains(task),
    ensures
        boot_plan(resources).contains(task),
{
    let pci = resources.spec_pci_enabled(true);
    let machine = machine_plan(resources, pci);
    let timer = boot_timer_plan(resources);
    let devices = devices_plan(resources, pci);
    let vfio = passthrough_plan(resources);
    let legacy = platform_plan(resources);
    lemma_contained_in_turn(machine, timer, task);
    lemma_contained_in_turn(machine + timer, devices, task);
    lemma_contained_in_turn(machine + timer + devices, vfio, task);
    lemma_contained_in_turn(machine + timer + devices + vfio, legacy, task);
    lemma_contained_in_turn(
        machine + timer + devices + vfio + legacy,
        launch_plan(resources),
        task,
    );
}

/// A machine is restored only with each vCPU that has a saved state restored from it.
pub proof fn law_every_saved_vcpu_is_restored(
    input: BuildInput,
    outcomes: Seq<Outcome>,
    index: usize,
)
    requires
        can_restore(input),
        is_run(input, snapshot_build(input), outcomes),
        run(input, snapshot_build(input), outcomes).verdict is Built,
        index < run(input, snapshot_build(input), outcomes).vcpus,
        index < input.source->Snapshot_0.vcpu_tsc_khz@.len(),
    ensures
        asked(input, snapshot_build(input), outcomes).contains(
            Action::Restore(RestoreAction::RestoreVcpu { index }),
        ),
{
    let build = snapshot_build(input);
    let before = vcpus_ready_plan(input);
    let resume = resume_plan(!input.source->Snapshot_0.has_uffd);
    let action = Action::Restore(RestoreAction::RestoreVcpu { index });
    lemma_snapshot_build(input);
    assert(before.last() == Task::PlanVcpuRestore);
    lemma_contained_in_turn(before, resume, Task::PlanVcpuRestore);
    let at = law_built_did_what_was_planned(
        false,
        input,
        build,
        outcomes,
        Task::PlanVcpuRestore,
    );
    let now = run(input, build, outcomes.take(at));
    lemma_run_after(input, build, outcomes, at);
    law_memory_and_vcpus_stay(false, input, now, outcomes.skip(at));
    assert(planned(input, now, Task::PlanVcpuRestore)[index as int] == Task::Host(action));
    assert(asked(input, build, outcomes).contains(action));
}

/// Where the time stamp counter of the first vCPU has to be scaled, a machine is restored only with
/// the counters of all vCPUs set to the frequency that was saved.
pub proof fn law_every_counter_is_scaled(
    input: BuildInput,
    outcomes: Seq<Outcome>,
    at: int,
    khz: u32,
    vcpu: usize,
)
    requires
        can_restore(input),
        is_run(input, snapshot_build(input), outcomes),
        run(input, snapshot_build(input), outcomes).verdict is Built,
        0 <= at < outcomes.len(),
        asked(input, snapshot_build(input), outcomes)[at] == Action::Restore(
            RestoreAction::CheckTscScaling { khz },
        ),
        outcomes[at] == Outcome::TscScaling(true),
        vcpu < run(input, snapshot_build(input), outcomes).vcpus,
    ensures
        asked(input, snapshot_build(input), outcomes).contains(
            Action::Restore(RestoreAction::SetTsc { vcpu, khz }),
        ),
{
    let build = snapshot_build(input);
    let now = run(input, build, outcomes.take(at));
    let action = Action::Restore(RestoreAction::SetTsc { vcpu, khz });
    lemma_snapshot_build(input);
    lemma_run_before(input, build, outcomes, at);
    lemma_run_after(input, build, outcomes, at);
    lemma_run_in_order(false, input, build, outcomes.take(at));
    assert forall|k: int| 0 <= k < now.todo.len() implies 5 <= phase(false, #[trigger] now.todo[k]) by {
        assert(phase(false, now.todo[0]) <= phase(false, now.todo[k]));
    }
    law_memory_and_vcpus_stay(false, input, now, outcomes.skip(at));
    assert(tsc_plan(true, now.vcpus as nat, khz)[vcpu as int] == Task::Host(action));
    law_built_did_what_followed(input, build, outcomes, at, action);
}

/// The monitor of a machine that is booted is plugged in the event manager once, as the last that
/// the host is asked for, and only where booting succeeds.
pub proof fn law_booted_machine_is_plugged_in_last(input: BuildInput, outcomes: Seq<Outcome>)
    requires
        can_boot(input),
        is_run(input, boot_build(input), outcomes),
    ensures
        forall|i: int|
            0 <= i < outcomes.len() && #[trigger] asked(input, boot_build(input), outcomes)[i]
                == Action::SubscribeVmm ==> i == outcomes.len() - 1,
        run(input, boot_build(input), outcomes).verdict is Built <==> outcomes.len() > 0 && asked(
            input,
            boot_build(input),
            outcomes,
        ).last() == Action::SubscribeVmm,
{
    let build = boot_build(input);
    lemma_boot_build(input);
    lemma_boot_plan_in_order(input.resources);
    lemma_boot_plan_tail(input.resources);
    lemma_closing_of_boot(boot_plan(input.resources));
    law_closing_action_is_last(Action::SubscribeVmm, input, build, outcomes);
    if outcomes.len() > 0 {
        law_run_keeps_build(input, build, outcomes);
        law_asked_is_allowed(input, build, outcomes, outcomes.len() - 1);
    }
}

/// A machine that is booted to run is let run only with its vCPUs started, the monitor under its
/// filter and plugged in the event manager, and that once.
pub proof fn law_running_machine_is_started(input: BuildInput, outcomes: Seq<Outcome>)
    requires
        can_boot(input),
        is_run(input, boot_and_run_build(input), outcomes),
        run(input, boot_and_run_build(input), outcomes).verdict is Built,
    ensures
        asked(input, boot_and_run_build(input), outcomes).contains(Action::StartVcpus),
        asked(input, boot_and_run_build(input), outcomes).contains(Action::ApplySeccompFilter),
        asked_exactly_once(
            Action::SubscribeVmm,
            asked(input, boot_and_run_build(input), outcomes),
        ),
{
    let build = boot_and_run_build(input);
    lemma_boot_build(input);
    lemma_boot_plan_in_order(input.resources);
    lemma_boot_plan_tail(input.resources);
    lemma_closing_of_boot(boot_plan(input.resources));
    law_built_did_everything(input, build, outcomes, Action::StartVcpus);
    law_built_did_everything(input, build, outcomes, Action::ApplySeccompFilter);
    lemma_asked_once(Action::SubscribeVmm, input, build, outcomes);
}

/// The action is among those that were asked for, and only once.
pub open spec fn asked_exactly_once(action: Action, actions: Seq<Action>) -> bool {
    &&& actions.contains(action)
    &&& forall|i: int, j: int|
        0 <= i < j < actions.len() ==> #[trigger] actions[i] != action || #[trigger] actions[j]
            != action
}

pub(crate) proof fn lemma_asked_once(
    action: Action,
    input: BuildInput,
    build: BuildModel,
    outcomes: Seq<Outcome>,
)
    requires
        is_only_planned(action),
        is_build_of(input, build),
        build.verdict is Running,
        is_run(input, build, outcomes),
        run(input, build, outcomes).verdict is Built,
        at_most_once(action, build.todo),
        build.todo.contains(Task::Host(action)),
    ensures
        asked_exactly_once(action, asked(input, build, outcomes)),
{
    let all = asked(input, build, outcomes);
    law_run_keeps_build(input, build, outcomes);
    law_built_did_everything(input, build, outcomes, action);
    assert forall|i: int, j: int| 0 <= i < j < all.len() implies #[trigger] all[i] != action
        || #[trigger] all[j] != action by {
        law_asked_once(action, input, build, outcomes, i, j);
    }
}

/// A machine is restored only with its vCPUs started, the monitor under its filter and plugged in the
/// event manager, and that once.
pub proof fn law_restored_machine_is_started(input: BuildInput, outcomes: Seq<Outcome>)
    requires
        can_restore(input),
        is_run(input, snapshot_build(input), outcomes),
        run(input, snapshot_build(input), outcomes).verdict is Built,
    ensures
        asked(input, snapshot_build(input), outcomes).contains(Action::StartVcpus),
        asked(input, snapshot_build(input), outcomes).contains(Action::ApplySeccompFilter),
        asked_exactly_once(
            Action::SubscribeVmm,
            asked(input, snapshot_build(input), outcomes),
        ),
{
    let build = snapshot_build(input);
    let before = vcpus_ready_plan(input);
    let resume = resume_plan(!input.source->Snapshot_0.has_uffd);
    lemma_snapshot_build(input);
    lemma_vcpus_ready_in_order(input);
    assert(resume[7] == Task::Host(Action::StartVcpus));
    assert(resume[8] == Task::Host(Action::SubscribeVmm));
    assert(resume[10] == Task::Host(Action::ApplySeccompFilter));
    lemma_contained_in_turn(before, resume, resume[7]);
    lemma_contained_in_turn(before, resume, resume[8]);
    lemma_contained_in_turn(before, resume, resume[10]);
    assert(at_most_once(Action::SubscribeVmm, resume));
    lemma_never_in_turn(Action::SubscribeVmm, before, resume);
    law_built_did_everything(input, build, outcomes, Action::StartVcpus);
    law_built_did_everything(input, build, outcomes, Action::ApplySeccompFilter);
    lemma_asked_once(Action::SubscribeVmm, input, build, outcomes);
}

/// A machine with a PCI bus is restored only with the bus set up on the areas that the memory of the
/// snapshot leaves to devices.
pub proof fn law_restored_bus_is_set_up(input: BuildInput, outcomes: Seq<Outcome>, action: Action)
    requires
        can_restore(input),
        input.spec_pci_enabled(),
        is_run(input, snapshot_build(input), outcomes),
        run(input, snapshot_build(input), outcomes).verdict is Built,
        pci_setup_plan(
            spec_pci_layout(input.source->Snapshot_0.last_addr, input.resources.layout),
        ).contains(Task::Host(action)),
    ensures
        asked(input, snapshot_build(input), outcomes).contains(action),
{
    let build = snapshot_build(input);
    let resources = input.resources;
    let vmm = create_vmm_plan(
        resources.arch,
        true,
        resources.vcpu_count,
        Capabilities::Snapshot,
    );
    let tsc = match saved_tsc(resources.arch, input.source->Snapshot_0) {
        Some(khz) => seq![restore_task(RestoreAction::CheckTscScaling { khz })],
        None => seq![],
    };
    let resume = resume_plan(!input.source->Snapshot_0.has_uffd);
    lemma_snapshot_build(input);
    lemma_create_vmm_phase(
        false,
        resources.arch,
        true,
        resources.vcpu_count,
        Capabilities::Snapshot,
    );
    lemma_bus_is_planned(resources.arch, resources.vcpu_count, Capabilities::Snapshot);
    lemma_contained_in_turn(vmm, tsc, Task::PlanPci);
    lemma_contained_in_turn(vmm + tsc, seq![Task::PlanVcpuRestore], Task::PlanPci);
    lemma_contained_in_turn(vcpus_ready_plan(input), resume, Task::PlanPci);
    assert(vmm[0] == build.todo[0]);
    assert(from_phase(false, 4, build.todo)) by {
        assert forall|k: int| 0 <= k < build.todo.len() implies 4 <= phase(
            false,
            #[trigger] build.todo[k],
        ) by {
            assert(phase(false, build.todo[0]) <= phase(false, build.todo[k]));
        }
    }
    let at = law_built_did_what_was_planned(false, input, build, outcomes, Task::PlanPci);
    lemma_run_after(input, build, outcomes, at);
    law_memory_and_vcpus_stay(false, input, build, outcomes);
    law_memory_and_vcpus_stay(
        false,
        input,
        run(input, build, outcomes.take(at)),
        outcomes.skip(at),
    );
    assert(asked(input, build, outcomes).contains(action));
}

/// The counters of a restored machine are set only where its first vCPU was asked before, and said
/// that they have to be scaled to the frequency that was saved.
pub proof fn law_counter_of_restored_machine_is_set_only_where_required(
    input: BuildInput,
    outcomes: Seq<Outcome>,
    vcpu: usize,
    khz: u32,
    i: int,
)
    requires
        can_restore(input),
        is_run(input, snapshot_build(input), outcomes),
        0 <= i < outcomes.len(),
        asked(input, snapshot_build(input), outcomes)[i] == Action::Restore(
            RestoreAction::SetTsc { vcpu, khz },
        ),
    ensures
        exists|j: int|
            0 <= j < i && #[trigger] asked(input, snapshot_build(input), outcomes)[j]
                == Action::Restore(RestoreAction::CheckTscScaling { khz }) && outcomes[j]
                == Outcome::TscScaling(true),
        saved_tsc(input.resources.arch, input.source->Snapshot_0) == Some(khz),
{
    let build = snapshot_build(input);
    let before = vcpus_ready_plan(input);
    let resume = resume_plan(!input.source->Snapshot_0.has_uffd);
    let set = Action::Restore(RestoreAction::SetTsc { vcpu, khz });
    lemma_snapshot_build(input);
    assert(never(set, before)) by {
        assert forall|k: int| 0 <= k < before.len() implies #[trigger] before[k] != Task::Host(
            set,
        ) by {}
    }
    lemma_never_in_turn(set, before, resume);
    law_asked_is_allowed(input, build, outcomes, i);
    law_counter_is_set_only_where_required(input, build, outcomes, vcpu, khz, i);
}

/// Both builds that boot a machine are to start its vCPUs and to apply the filter of the monitor.
pub(crate) proof fn lemma_boot_is_closed(input: BuildInput)
    requires
        can_boot(input),
    ensures
        boot_build(input).todo.contains(Task::Host(Action::StartVcpus)),
        boot_build(input).todo.contains(Task::Host(Action::ApplySeccompFilter)),
        boot_and_run_build(input).todo.contains(Task::Host(Action::StartVcpus)),
        boot_and_run_build(input).todo.contains(Task::Host(Action::ApplySeccompFilter)),
{
    let plan = boot_plan(input.resources);
    let n = plan.len() as int;
    lemma_boot_build(input);
    lemma_boot_plan_in_order(input.resources);
    lemma_boot_plan_tail(input.resources);
    lemma_closing_of_boot(plan);
    assert(plan.contains(plan[n - 2]) && plan.contains(plan[n - 4]));
}

/// The build that restores a machine is to start its vCPUs and to apply the filter of the monitor.
pub(crate) proof fn lemma_snapshot_is_closed(input: BuildInput)
    requires
        can_restore(input),
    ensures
        snapshot_build(input).todo.contains(Task::Host(Action::StartVcpus)),
        snapshot_build(input).todo.contains(Task::Host(Action::ApplySeccompFilter)),
{
    let before = vcpus_ready_plan(input);
    let resume = resume_plan(!input.source->Snapshot_0.has_uffd);
    lemma_snapshot_build(input);
    assert(resume[7] == Task::Host(Action::StartVcpus));
    assert(resume[10] == Task::Host(Action::ApplySeccompFilter));
    lemma_contained_in_turn(before, resume, resume[7]);
    lemma_contained_in_turn(before, resume, resume[10]);
}

} // verus!
