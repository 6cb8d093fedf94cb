//! Which machines have a PCI bus, and what it is set up on.
use crate::cmdline_laws::boots;
use crate::laws::{
    asked, is_run, law_asked_is_allowed, law_asked_once, law_run_keeps_build, planned, run,
};
use crate::layout::{
    law_device_areas, leaves_device_area, lemma_device_space, spec_pci_layout, ArchLayout,
};
use crate::machine_laws::{
    law_restoration_is_as_saved, lemma_boot_holds, lemma_restoration_holds,
};
use crate::model::{
    are_tasks_of, fits, follow_up, is_build_of, is_task_of, law_step_keeps_build, learn,
    lemma_boot_plan, lemma_follow_up, settle, step, BuildModel,
};
use crate::recipe_laws::{
    boot_build, can_restore, law_boot_is_in_order, law_bus_is_set_up, law_one_transport,
    law_restoration_is_in_order, law_restored_bus_is_set_up, lemma_boot_build, lemma_snapshot_build,
    snapshot_build,
};
use crate::report_laws::law_boot_goes_by_reports;
use crate::resources::{law_bus_by_default, BuildInput};
use crate::root::root_arguments;
use crate::running_laws::{law_machine_is_booted_before_it_runs, law_machine_runs_once_booted};
use crate::task::{Action, AttachAction, Outcome, PciSetupAction, Task, VmmAction};
use crate::vmm::pci_setup_plan;
use vstd::prelude::*;

verus! {

/// The step sets up the PCI bus of a machine whose guest memory ends at `last_addr`. The 32-bit devices
/// live where the machine has room for them; the 64-bit devices live behind guest memory, or from 4 GiB
/// on where that ends below the 32-bit hole, up to the platform devices; and these live in the last
/// mebibyte of the 46-bit address space, short of 64 KiB. Devices share the last of 24 interrupt lines
/// with each other, and leave the first five alone.
pub open spec fn sets_up_bus(last_addr: u64, arch: ArchLayout, action: PciSetupAction) -> bool {
    match action {
        PciSetupAction::CreateSystemAllocator {
            io_base,
            io_size,
            platform_base,
            platform_size,
            irq_base,
            irq_count,
        } => {
            &&& io_base == 0
            &&& io_size == 0x1_0000
            &&& platform_base == 0x3fff_ffef_0000
            &&& platform_size == 0x10_0000
            &&& irq_base == 5
            &&& irq_base + irq_count == 24
        },
        PciSetupAction::CreateMsiInterruptManager => true,
        PciSetupAction::CreateMmio32Allocator { base, size } => {
            &&& base == arch.mem_32bit_devices_start
            &&& size == arch.mem_32bit_devices_size
        },
        PciSetupAction::CreateMmio64Allocator { base, size } => {
            &&& base + size == 0x3fff_ffef_0000
            &&& base % 0x800_0000 == 0
            &&& last_addr < arch.mem_32bit_reserved_start ==> base == 0x1_0000_0000
            &&& last_addr >= arch.mem_32bit_reserved_start ==> last_addr <= base < last_addr
                + 0x800_0000
        },
        PciSetupAction::CreateSegment { id, node, irq } => id == 0 && node == 0 && irq == 23,
        PciSetupAction::InstallConfigPorts => true,
    }
}

/// Guest memory that ends where it does makes for one bus and no other.
proof fn lemma_bus_plan(last_addr: u64, arch: ArchLayout, action: PciSetupAction)
    requires
        leaves_device_area(last_addr, arch),
    ensures
        pci_setup_plan(spec_pci_layout(last_addr, arch)).contains(
            Task::Host(Action::Vmm(VmmAction::Pci(action))),
        ) <==> sets_up_bus(last_addr, arch, action),
{
    let plan = pci_setup_plan(spec_pci_layout(last_addr, arch));
    let task = Task::Host(Action::Vmm(VmmAction::Pci(action)));
    lemma_device_space();
    law_device_areas(last_addr, arch);
    if sets_up_bus(last_addr, arch, action) {
        match action {
            PciSetupAction::CreateSystemAllocator { .. } => {
                assert(plan[0] == task);
            },
            PciSetupAction::CreateMsiInterruptManager => {
                assert(plan[1] == task);
            },
            PciSetupAction::CreateMmio32Allocator { .. } => {
                assert(plan[2] == task);
            },
            PciSetupAction::CreateMmio64Allocator { base, size } => {
                if last_addr >= arch.mem_32bit_reserved_start {
                    let found = spec_pci_layout(last_addr, arch).mem64_base;
                    assert(base % 0x800_0000 == 0 && found % 0x800_0000 == 0);
                    assert(base == found);
                }
                assert(plan[3] == task);
            },
            PciSetupAction::CreateSegment { .. } => {
                assert(plan[4] == task);
            },
            PciSetupAction::InstallConfigPorts => {
                assert(plan[5] == task);
            },
        }
    }
    if plan.contains(task) {
        let k = choose|k: int| 0 <= k < plan.len() && plan[k] == task;
        assert(plan.len() == 6);
        assert(k == 0 || k == 1 || k == 2 || k == 3 || k == 4 || k == 5);
    }
}

/// All steps of setting up the bus that are among the tasks set it up behind guest memory that ends at
/// `last_addr`.
spec fn all_set_up_bus(last_addr: u64, arch: ArchLayout, tasks: Seq<Task>) -> bool {
    forall|k: int|
        0 <= k < tasks.len() ==> (#[trigger] tasks[k] matches Task::Host(
            Action::Vmm(VmmAction::Pci(action)),
        ) ==> sets_up_bus(last_addr, arch, action))
}

proof fn lemma_set_up_in_turn(last_addr: u64, arch: ArchLayout, first: Seq<Task>, rest: Seq<Task>)
    requires
        all_set_up_bus(last_addr, arch, first),
        all_set_up_bus(last_addr, arch, rest),
    ensures
        all_set_up_bus(last_addr, arch, first + rest),
{
    let all = first + rest;
    assert forall|k: int| 0 <= k < all.len() implies (#[trigger] all[k] matches Task::Host(
        Action::Vmm(VmmAction::Pci(action)),
    ) ==> sets_up_bus(last_addr, arch, action)) by {
        if k < first.len() {
            assert(all[k] == first[k]);
        } else {
            assert(all[k] == rest[k - first.len()]);
        }
    }
}

proof fn lemma_planned_bus(input: BuildInput, build: BuildModel, task: Task)
    requires
        task == Task::PlanPci ==> leaves_device_area(build.last_addr, input.resources.layout),
    ensures
        all_set_up_bus(
            build.last_addr,
            input.resources.layout,
            planned(input, build, task),
        ),
{
    let plan = planned(input, build, task);
    assert forall|k: int| 0 <= k < plan.len() implies (#[trigger] plan[k] matches Task::Host(
        Action::Vmm(VmmAction::Pci(action)),
    ) ==> sets_up_bus(build.last_addr, input.resources.layout, action)) by {
        if let Task::Host(Action::Vmm(VmmAction::Pci(action))) = plan[k] {
            assert(plan.contains(plan[k]));
            lemma_bus_plan(build.last_addr, input.resources.layout, action);
        }
    }
}

proof fn lemma_settle_bus(input: BuildInput, build: BuildModel)
    requires
        input.spec_pci_enabled() ==> leaves_device_area(build.last_addr, input.resources.layout),
        are_tasks_of(input, build.todo),
        all_set_up_bus(build.last_addr, input.resources.layout, build.todo),
    ensures
        settle(input, build).last_addr == build.last_addr,
        all_set_up_bus(build.last_addr, input.resources.layout, settle(input, build).todo),
    decreases build.todo.len(),
{
    if build.todo.len() > 0 {
        let rest = build.todo.drop_first();
        let first = build.todo[0];
        assert(is_task_of(input, first));
        assert(all_set_up_bus(build.last_addr, input.resources.layout, rest));
        lemma_planned_bus(input, build, first);
        lemma_set_up_in_turn(
            build.last_addr,
            input.resources.layout,
            planned(input, build, first),
            rest,
        );
        match first {
            Task::RootArguments(i) => {
                let (cmdline, err) = root_arguments(
                    build.cmdline->0,
                    input.resources.block@[i as int],
                );
                lemma_settle_bus(
                    input,
                    BuildModel { todo: rest, cmdline: Some(cmdline), ..build },
                );
            },
            Task::PlanVcpuRestore | Task::RequireFilter(_) => {
                lemma_settle_bus(input, BuildModel { todo: rest, ..build });
            },
            _ => {},
        }
    }
}

proof fn lemma_run_bus(input: BuildInput, build: BuildModel, outcomes: Seq<Outcome>, k: int)
    requires
        is_build_of(input, build),
        is_run(input, build, outcomes),
        all_set_up_bus(build.last_addr, input.resources.layout, build.todo),
        forall|j: int| 0 <= j < outcomes.len() ==> !(#[trigger] outcomes[j] is GuestMemory),
        0 <= k < outcomes.len(),
    ensures
        asked(input, build, outcomes)[k] matches Action::Vmm(VmmAction::Pci(action))
            ==> sets_up_bus(build.last_addr, input.resources.layout, action),
    decreases outcomes.len(),
{
    let next = step(input, build, outcomes[0]);
    let rest = outcomes.drop_first();
    let all = asked(input, build, outcomes);
    law_run_keeps_build(input, build, outcomes);
    assert(build.todo[0] == Task::Host(all[0]));
    if k > 0 {
        law_step_keeps_build(input, build, outcomes[0]);
        assert(is_run(input, next, rest));
        lemma_step_bus(input, build, outcomes[0]);
        assert forall|j: int| 0 <= j < rest.len() implies !(#[trigger] rest[j] is GuestMemory) by {
            assert(rest[j] == outcomes[j + 1]);
        }
        lemma_run_bus(input, next, rest, k - 1);
        assert(all[k] == asked(input, next, rest)[k - 1]);
    }
}

proof fn lemma_step_bus(input: BuildInput, build: BuildModel, outcome: Outcome)
    requires
        is_build_of(input, build),
        build.verdict is Running,
        fits(input, build.todo[0]->Host_0, outcome),
        all_set_up_bus(
            learn(build, outcome).last_addr,
            input.resources.layout,
            build.todo.drop_first(),
        ),
        outcome is Failed ==> all_set_up_bus(
            build.last_addr,
            input.resources.layout,
            build.todo,
        ),
    ensures
        step(input, build, outcome).last_addr == learn(build, outcome).last_addr,
        all_set_up_bus(
            step(input, build, outcome).last_addr,
            input.resources.layout,
            step(input, build, outcome).todo,
        ),
{
    let action = build.todo[0]->Host_0;
    let later = build.todo.drop_first();
    assert(is_task_of(input, build.todo[0]));
    if !(outcome is Failed) {
        let followed = follow_up(input, build, action, outcome);
        let after = learn(build, outcome);
        lemma_follow_up(input, build, action, outcome);
        assert(all_set_up_bus(after.last_addr, input.resources.layout, followed));
        lemma_set_up_in_turn(after.last_addr, input.resources.layout, followed, later);
        assert(are_tasks_of(input, followed + later));
        lemma_settle_bus(input, BuildModel { todo: followed + later, ..after });
    }
}

proof fn lemma_plan_has_no_bus(input: BuildInput, build: BuildModel)
    requires
        boots(input, build),
    ensures
        forall|k: int|
            0 <= k < build.todo.len() ==> !(#[trigger] build.todo[k] matches Task::Host(
                Action::Vmm(VmmAction::Pci(_)),
            )),
{
    lemma_boot_build(input);
    assert forall|k: int| 0 <= k < build.todo.len() implies !(#[trigger] build.todo[k]
        matches Task::Host(Action::Vmm(VmmAction::Pci(_)))) by {
        if let Task::Host(Action::Vmm(VmmAction::Pci(action))) = build.todo[k] {
            lemma_boot_holds(input.resources, Action::Vmm(VmmAction::Pci(action)));
            assert(build.todo.contains(build.todo[k]));
        }
    }
}

proof fn lemma_booted_bus_only(
    input: BuildInput,
    build: BuildModel,
    outcomes: Seq<Outcome>,
    at: int,
    k: int,
)
    requires
        boots(input, build),
        is_run(input, build, outcomes),
        0 <= at < outcomes.len(),
        outcomes[at] is GuestMemory,
        0 <= k < outcomes.len(),
    ensures
        asked(input, build, outcomes)[k] matches Action::Vmm(VmmAction::Pci(action))
            ==> sets_up_bus(
            outcomes[at]->last_addr,
            input.resources.layout,
            action,
        ),
{
    let all = asked(input, build, outcomes);
    let next = step(input, build, outcomes[0]);
    let rest = outcomes.drop_first();
    lemma_boot_build(input);
    lemma_boot_plan(input);
    law_boot_is_in_order(input);
    law_run_keeps_build(input, build, outcomes);
    lemma_boot_holds(input.resources, Action::AllocateGuestMemory);
    law_boot_goes_by_reports(input, build, outcomes, at);
    assert(build.todo[0] == Task::Host(Action::AllocateGuestMemory));
    assert(all[0] == Action::AllocateGuestMemory);
    if at > 0 {
        law_asked_once(Action::AllocateGuestMemory, input, build, outcomes, 0, at);
    }
    lemma_plan_has_no_bus(input, build);
    assert(all_set_up_bus(
        outcomes[0]->last_addr,
        input.resources.layout,
        build.todo.drop_first(),
    ));
    law_step_keeps_build(input, build, outcomes[0]);
    lemma_step_bus(input, build, outcomes[0]);
    assert(is_run(input, next, rest));
    assert forall|j: int| 0 <= j < rest.len() implies !(#[trigger] rest[j] is GuestMemory) by {
        assert(rest[j] == outcomes[j + 1]);
        law_boot_goes_by_reports(input, build, outcomes, j + 1);
        law_asked_once(Action::AllocateGuestMemory, input, build, outcomes, 0, j + 1);
    }
    if k > 0 {
        lemma_run_bus(input, next, rest, k - 1);
        assert(all[k] == asked(input, next, rest)[k - 1]);
    }
}

proof fn lemma_booted_bus_is_there(
    input: BuildInput,
    build: BuildModel,
    outcomes: Seq<Outcome>,
    at: int,
    action: PciSetupAction,
)
    requires
        boots(input, build),
        is_run(input, build, outcomes),
        run(input, build, outcomes).verdict is Built,
        input.spec_pci_enabled(),
        0 <= at < outcomes.len(),
        outcomes[at] is GuestMemory,
        sets_up_bus(outcomes[at]->last_addr, input.resources.layout, action),
    ensures
        asked(input, build, outcomes).contains(Action::Vmm(VmmAction::Pci(action))),
{
    let step = Action::Vmm(VmmAction::Pci(action));
    lemma_boot_build(input);
    law_boot_goes_by_reports(input, build, outcomes, at);
    law_run_keeps_build(input, build, outcomes);
    lemma_bus_plan(outcomes[at]->last_addr, input.resources.layout, action);
    if build == boot_build(input) {
        law_bus_is_set_up(input, outcomes, step);
    } else {
        let paused = boot_build(input);
        let shorter = outcomes.drop_last();
        law_machine_runs_once_booted(input, outcomes);
        if is_run(input, paused, outcomes) {
            law_machine_is_booted_before_it_runs(input, outcomes);
        }
        law_machine_is_booted_before_it_runs(input, shorter);
        law_run_keeps_build(input, paused, shorter);
        law_boot_goes_by_reports(input, build, outcomes, outcomes.len() - 1);
        assert(asked(input, build, outcomes)[outcomes.len() - 1] == Action::ResumeVm);
        assert(shorter[at] == outcomes[at]);
        law_boot_goes_by_reports(input, paused, shorter, at);
        law_bus_is_set_up(input, shorter, step);
        let k = choose|k: int|
            0 <= k < asked(input, paused, shorter).len() && asked(input, paused, shorter)[k] == step;
        assert(asked(input, build, outcomes)[k] == step);
    }
}

/// A machine that boots has a PCI bus where the configuration says so or says nothing, whatever devices
/// it has: booting it succeeds only with the bus set up behind the guest memory that the host reported,
/// and with no device attached over MMIO. Where the configuration says that there is no bus, none is
/// set up, and nothing is placed on one. No bus is set up in any other way.
pub proof fn law_booted_machine_has_its_bus(
    input: BuildInput,
    build: BuildModel,
    outcomes: Seq<Outcome>,
    at: int,
    action: PciSetupAction,
)
    requires
        boots(input, build),
        is_run(input, build, outcomes),
        0 <= at < outcomes.len(),
        outcomes[at] is GuestMemory,
    ensures
        ({
            let all = asked(input, build, outcomes);
            let step = Action::Vmm(VmmAction::Pci(action));
            let config = input.resources.pci_config;
            let bus = config is None || config->0.enabled;
            &&& bus && run(input, build, outcomes).verdict is Built && sets_up_bus(
                outcomes[at]->last_addr,
                input.resources.layout,
                action,
            ) ==> all.contains(step)
            &&& all.contains(step) ==> bus && sets_up_bus(
                outcomes[at]->last_addr,
                input.resources.layout,
                action,
            )
            &&& bus ==> forall|k: int|
                0 <= k < all.len() ==> !(#[trigger] all[k] matches Action::Attach(
                    _,
                    AttachAction::RegisterMmio { .. },
                ))
            &&& !bus ==> forall|k: int|
                0 <= k < all.len() ==> !(#[trigger] all[k] matches Action::Attach(
                    _,
                    AttachAction::NextDeviceBdf,
                ))
        }),
{
    let all = asked(input, build, outcomes);
    let step = Action::Vmm(VmmAction::Pci(action));
    let config = input.resources.pci_config;
    let bus = config is None || config->0.enabled;
    lemma_boot_build(input);
    law_run_keeps_build(input, build, outcomes);
    law_bus_by_default(input);
    assert(bus == input.spec_pci_enabled());
    assert forall|k: int| 0 <= k < all.len() implies (bus ==> !(#[trigger] all[k]
        matches Action::Attach(_, AttachAction::RegisterMmio { .. }))) && (!bus ==> !(all[k]
        matches Action::Attach(_, AttachAction::NextDeviceBdf)) && !(all[k] matches Action::Vmm(
        VmmAction::Pci(_),
    ))) by {
        law_one_transport(input, build, outcomes, k);
    }
    if all.contains(step) {
        let k = choose|k: int| 0 <= k < all.len() && all[k] == step;
        lemma_booted_bus_only(input, build, outcomes, at, k);
    }
    if bus && run(input, build, outcomes).verdict is Built && sets_up_bus(
        outcomes[at]->last_addr,
        input.resources.layout,
        action,
    ) {
        lemma_booted_bus_is_there(input, build, outcomes, at, action);
    }
}

/// A machine is booted only with guest memory reported by the host, which is what it was asked for
/// first.
pub proof fn law_booted_machine_has_memory(
    input: BuildInput,
    build: BuildModel,
    outcomes: Seq<Outcome>,
)
    requires
        boots(input, build),
        is_run(input, build, outcomes),
        run(input, build, outcomes).verdict is Built,
    ensures
        outcomes.len() > 0,
        asked(input, build, outcomes)[0] == Action::AllocateGuestMemory,
        outcomes[0] is GuestMemory,
{
    lemma_boot_build(input);
    lemma_boot_plan(input);
    law_boot_is_in_order(input);
    law_run_keeps_build(input, build, outcomes);
    assert(build.todo[0] == Task::Host(Action::AllocateGuestMemory));
    law_asked_is_allowed(input, build, outcomes, 0);
    if outcomes[0] is Failed {
        let next = step(input, build, outcomes[0]);
        let rest = outcomes.drop_first();
        assert(is_run(input, next, rest));
        assert(rest.len() == 0);
        assert(run(input, next, rest) == next);
    }
}

/// A machine without PCI settings is booted with a PCI bus, whatever its devices: booting it succeeds
/// only with the segment created, and attaches no device over MMIO.
pub proof fn law_bus_is_there_without_settings(
    input: BuildInput,
    build: BuildModel,
    outcomes: Seq<Outcome>,
)
    requires
        boots(input, build),
        input.resources.pci_config is None,
        is_run(input, build, outcomes),
        run(input, build, outcomes).verdict is Built,
    ensures
        asked(input, build, outcomes).contains(
            Action::Vmm(VmmAction::Pci(PciSetupAction::CreateSegment { id: 0, node: 0, irq: 23 })),
        ),
        forall|k: int|
            0 <= k < outcomes.len() ==> !(#[trigger] asked(input, build, outcomes)[k]
                matches Action::Attach(_, AttachAction::RegisterMmio { .. })),
{
    lemma_boot_build(input);
    law_run_keeps_build(input, build, outcomes);
    law_booted_machine_has_memory(input, build, outcomes);
    law_booted_machine_has_its_bus(
        input,
        build,
        outcomes,
        0,
        PciSetupAction::CreateSegment { id: 0, node: 0, irq: 23 },
    );
}

/// A restored machine has a PCI bus where the configuration says so and only there: restoring it
/// succeeds only with the bus set up behind the guest memory of the snapshot. Without PCI settings, or
/// with settings that say that there is none, no bus is set up; and none is set up in any other way.
pub proof fn law_restored_machine_has_its_bus(
    input: BuildInput,
    outcomes: Seq<Outcome>,
    action: PciSetupAction,
)
    requires
        can_restore(input),
        is_run(input, snapshot_build(input), outcomes),
    ensures
        ({
            let all = asked(input, snapshot_build(input), outcomes);
            let step = Action::Vmm(VmmAction::Pci(action));
            let config = input.resources.pci_config;
            let bus = config is Some && config->0.enabled;
            let fitting = sets_up_bus(
                input.source->Snapshot_0.last_addr,
                input.resources.layout,
                action,
            );
            &&& bus && run(input, snapshot_build(input), outcomes).verdict is Built && fitting
                ==> all.contains(step)
            &&& all.contains(step) ==> bus && fitting
        }),
{
    let build = snapshot_build(input);
    let all = asked(input, build, outcomes);
    let step = Action::Vmm(VmmAction::Pci(action));
    let config = input.resources.pci_config;
    let bus = config is Some && config->0.enabled;
    let snapshot = input.source->Snapshot_0;
    lemma_snapshot_build(input);
    law_restoration_is_in_order(input);
    law_run_keeps_build(input, build, outcomes);
    law_bus_by_default(input);
    assert(bus == input.spec_pci_enabled());
    assert(all_set_up_bus(snapshot.last_addr, input.resources.layout, build.todo)) by {
        assert forall|k: int| 0 <= k < build.todo.len() implies (#[trigger] build.todo[k]
            matches Task::Host(Action::Vmm(VmmAction::Pci(found))) ==> sets_up_bus(
            snapshot.last_addr,
            input.resources.layout,
            found,
        )) by {
            if let Task::Host(Action::Vmm(VmmAction::Pci(found))) = build.todo[k] {
                lemma_restoration_holds(
                    input.resources,
                    snapshot,
                    Action::Vmm(VmmAction::Pci(found)),
                );
                assert(build.todo.contains(build.todo[k]));
            }
        }
    }
    if all.contains(step) {
        let k = choose|k: int| 0 <= k < all.len() && all[k] == step;
        law_one_transport(input, build, outcomes, k);
        assert forall|j: int| 0 <= j < outcomes.len() implies !(#[trigger] outcomes[j] is GuestMemory) by {
            law_asked_is_allowed(input, build, outcomes, j);
            assert(all.contains(all[j]));
            law_restoration_is_as_saved(input, outcomes, Action::AllocateGuestMemory);
        }
        lemma_run_bus(input, build, outcomes, k);
    }
    if bus && run(input, build, outcomes).verdict is Built && sets_up_bus(
        snapshot.last_addr,
        input.resources.layout,
        action,
    ) {
        lemma_bus_plan(snapshot.last_addr, input.resources.layout, action);
        law_restored_bus_is_set_up(input, outcomes, step);
    }
}

} // verus!
