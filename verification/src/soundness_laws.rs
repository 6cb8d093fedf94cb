//! What follows from the reports of the host suits the device, the machine and the report.
use crate::cmdline_laws::boots;
use crate::laws::{
    asked, is_run, law_asked_is_allowed, law_asked_once, law_built_did_what_followed,
    law_memory_and_vcpus_are_kept, law_run_keeps_build, planned, run,
};
use crate::machine_laws::{lemma_boot_holds, lemma_restoration_holds};
use crate::model::{
    fits, follow_up, is_build_of, is_task_of, law_step_keeps_build, learn,
    lemma_follow_up, settle, step, BuildModel,
};
use crate::pci::{
    bar_action, bars_plan, law_bdf_distance, law_device_is_added_and_then_inserted, mapping_plan,
};
use crate::recipe_laws::{can_restore, lemma_boot_build, lemma_snapshot_build, snapshot_build};
use crate::report_laws::{law_boot_goes_by_reports, law_restoration_goes_by_snapshot_and_reports};
use crate::resources::{Arch, BuildInput, DeviceHandle};
use crate::root::root_arguments;
use crate::task::{
    Action, AttachAction, Outcome, PciAction, PciBarConfiguration, PciBarRegionType, RestoreAction,
    Task, VfioAction, VmmAction,
};
use crate::vfio::{law_passthrough_at_its_number, vfio_device_plan};
use crate::virtio::{
    bdf_plan, law_block_devices_have_32bit_bars, law_device_is_created_at_its_address,
    law_every_queue_has_its_address, law_one_vector_more_than_queues, notify_plan,
};
use vstd::prelude::*;

verus! {

/// The step suits what it is about, on a machine with as many vCPUs: a virtio device is wrapped with a
/// vector more than it has queues, and has a 64-bit register unless it is a block device; only events of
/// its queues are registered; a device that is passed through is wrapped at the address of its number;
/// there is a port I/O bus to insert a device in; and only vCPUs that exist have their counter set or are
/// restored, these from a state that was saved.
pub open spec fn suits(input: BuildInput, vcpus: usize, action: Action) -> bool {
    match action {
        Action::Attach(device, AttachAction::CreateVirtioPci { msix_num, use_64bit_bar, .. }) => {
            &&& (msix_num - input.resources.spec_device(device).queues - 1) % 0x1_0000 == 0
            &&& use_64bit_bar == (input.resources.spec_device(device).device_type != 2)
        },
        Action::Attach(device, AttachAction::RegisterIoevent { queue, .. }) => queue
            < input.resources.spec_device(device).queue_events,
        Action::Attach(_, AttachAction::Pci(PciAction::InsertIoBus { .. })) => input.resources.arch
            == Arch::X86_64,
        Action::Vfio(_, VfioAction::Pci(PciAction::InsertIoBus { .. })) => input.resources.arch
            == Arch::X86_64,
        Action::Vfio(_, VfioAction::CreateDevice { id, bdf }) => (bdf - id * 8) % 0x1_0000_0000
            == 0,
        Action::Restore(RestoreAction::SetTsc { vcpu, .. }) => vcpu < vcpus,
        Action::Restore(RestoreAction::RestoreVcpu { index }) => {
            &&& index < vcpus
            &&& index < input.source->Snapshot_0.vcpu_tsc_khz@.len()
        },
        _ => true,
    }
}

spec fn all_suit(input: BuildInput, vcpus: usize, tasks: Seq<Task>) -> bool {
    forall|k: int|
        0 <= k < tasks.len() ==> (#[trigger] tasks[k] matches Task::Host(action) ==> suits(
            input,
            vcpus,
            action,
        ))
}

proof fn lemma_suit_in_turn(input: BuildInput, vcpus: usize, first: Seq<Task>, rest: Seq<Task>)
    requires
        all_suit(input, vcpus, first),
        all_suit(input, vcpus, rest),
    ensures
        all_suit(input, vcpus, first + rest),
{
    let all = first + rest;
    assert forall|k: int| 0 <= k < all.len() implies (#[trigger] all[k] matches Task::Host(action)
        ==> suits(input, vcpus, action)) by {
        if k < first.len() {
            assert(all[k] == first[k]);
        } else {
            assert(all[k] == rest[k - first.len()]);
        }
    }
}

proof fn lemma_planned_suits(input: BuildInput, build: BuildModel, task: Task)
    ensures
        all_suit(input, build.vcpus, planned(input, build, task)),
{
}

proof fn lemma_follow_up_suits(
    input: BuildInput,
    build: BuildModel,
    action: Action,
    outcome: Outcome,
)
    requires
        is_task_of(input, Task::Host(action)),
        fits(input, action, outcome),
    ensures
        all_suit(input, build.vcpus, follow_up(input, build, action, outcome)),
{
    let followed = follow_up(input, build, action, outcome);
    lemma_follow_up(input, build, action, outcome);
    if let Action::Attach(device, _) = action {
        law_one_vector_more_than_queues(input.resources.spec_device(device).queues);
        law_block_devices_have_32bit_bars(0, input.resources.spec_device(device).device_type);
    }
    if let Outcome::DeviceId(device_id) = outcome {
        law_bdf_distance(0, device_id);
    }
    assert forall|k: int| 0 <= k < followed.len() implies (#[trigger] followed[k] matches Task::Host(
        found,
    ) ==> suits(input, build.vcpus, found)) by {
        assert(is_task_of(input, followed[k]));
    }
}

proof fn lemma_settle_suits(input: BuildInput, build: BuildModel)
    requires
        all_suit(input, build.vcpus, build.todo),
    ensures
        settle(input, build).vcpus == build.vcpus,
        all_suit(input, build.vcpus, settle(input, build).todo),
    decreases build.todo.len(),
{
    if build.todo.len() > 0 {
        let rest = build.todo.drop_first();
        let first = build.todo[0];
        assert(all_suit(input, build.vcpus, rest));
        lemma_planned_suits(input, build, first);
        lemma_suit_in_turn(input, build.vcpus, planned(input, build, first), rest);
        match first {
            Task::RootArguments(i) => {
                let (cmdline, err) = root_arguments(
                    build.cmdline->0,
                    input.resources.block@[i as int],
                );
                lemma_settle_suits(
                    input,
                    BuildModel { todo: rest, cmdline: Some(cmdline), ..build },
                );
            },
            Task::PlanVcpuRestore | Task::RequireFilter(_) => {
                lemma_settle_suits(input, BuildModel { todo: rest, ..build });
            },
            _ => {},
        }
    }
}

/// No vCPUs exist that the host has yet to report, and it reports them once.
spec fn reports_vcpus_once(build: BuildModel, outcomes: Seq<Outcome>) -> bool {
    &&& build.vcpus == 0 || forall|j: int|
        0 <= j < outcomes.len() ==> !(#[trigger] outcomes[j] is Vcpus)
    &&& forall|a: int, b: int|
        0 <= a < b < outcomes.len() ==> !(#[trigger] outcomes[a] is Vcpus && #[trigger] outcomes[b]
            is Vcpus)
}

proof fn lemma_more_vcpus(input: BuildInput, fewer: usize, more: usize, tasks: Seq<Task>)
    requires
        fewer <= more,
        all_suit(input, fewer, tasks),
    ensures
        all_suit(input, more, tasks),
{
}

proof fn lemma_step_suits(input: BuildInput, build: BuildModel, outcome: Outcome)
    requires
        is_build_of(input, build),
        build.verdict is Running,
        fits(input, build.todo[0]->Host_0, outcome),
        all_suit(input, build.vcpus, build.todo),
        outcome is Vcpus ==> build.vcpus == 0,
    ensures
        all_suit(input, step(input, build, outcome).vcpus, step(input, build, outcome).todo),
        build.vcpus <= step(input, build, outcome).vcpus,
{
    let action = build.todo[0]->Host_0;
    let later = build.todo.drop_first();
    let after = learn(build, outcome);
    assert(is_task_of(input, build.todo[0]));
    assert(build.todo[0] == Task::Host(action));
    assert(all_suit(input, build.vcpus, later));
    if !(outcome is Failed) {
        let followed = follow_up(input, build, action, outcome);
        lemma_follow_up_suits(input, build, action, outcome);
        lemma_suit_in_turn(input, build.vcpus, followed, later);
        lemma_more_vcpus(input, build.vcpus, after.vcpus, followed + later);
        lemma_settle_suits(input, BuildModel { todo: followed + later, ..after });
    }
}

proof fn lemma_run_suits(input: BuildInput, build: BuildModel, outcomes: Seq<Outcome>, k: int)
    requires
        is_build_of(input, build),
        is_run(input, build, outcomes),
        all_suit(input, build.vcpus, build.todo),
        reports_vcpus_once(build, outcomes),
        0 <= k < outcomes.len(),
    ensures
        build.vcpus <= run(input, build, outcomes).vcpus,
        suits(input, run(input, build, outcomes).vcpus, asked(input, build, outcomes)[k]),
    decreases outcomes.len(),
{
    let next = step(input, build, outcomes[0]);
    let rest = outcomes.drop_first();
    let all = asked(input, build, outcomes);
    law_run_keeps_build(input, build, outcomes);
    law_step_keeps_build(input, build, outcomes[0]);
    law_memory_and_vcpus_are_kept(input, build, outcomes[0]);
    lemma_step_suits(input, build, outcomes[0]);
    assert(is_run(input, next, rest));
    assert(build.todo[0] == Task::Host(all[0]));
    assert(suits(input, build.vcpus, all[0]));
    assert(reports_vcpus_once(next, rest)) by {
        assert forall|a: int, b: int| 0 <= a < b < rest.len() implies !(#[trigger] rest[a] is Vcpus
            && #[trigger] rest[b] is Vcpus) by {
            assert(rest[a] == outcomes[a + 1] && rest[b] == outcomes[b + 1]);
        }
        if next.vcpus != 0 {
            assert forall|j: int| 0 <= j < rest.len() implies !(#[trigger] rest[j] is Vcpus) by {
                assert(rest[j] == outcomes[j + 1]);
                assert(!(outcomes[0] is Vcpus && outcomes[j + 1] is Vcpus));
            }
        }
    }
    if rest.len() == 0 {
        assert(run(input, next, rest) == next);
    } else if k > 0 {
        lemma_run_suits(input, next, rest, k - 1);
        assert(all[k] == asked(input, next, rest)[k - 1]);
    } else {
        lemma_run_suits(input, next, rest, 0);
    }
}

/// Every step that booting a machine asks the host for suits what it is about.
pub proof fn law_boot_suits(input: BuildInput, build: BuildModel, outcomes: Seq<Outcome>, k: int)
    requires
        boots(input, build),
        is_run(input, build, outcomes),
        0 <= k < outcomes.len(),
    ensures
        suits(input, run(input, build, outcomes).vcpus, asked(input, build, outcomes)[k]),
{
    let all = asked(input, build, outcomes);
    lemma_boot_build(input);
    law_run_keeps_build(input, build, outcomes);
    assert(all_suit(input, build.vcpus, build.todo)) by {
        assert forall|j: int| 0 <= j < build.todo.len() implies (#[trigger] build.todo[j]
            matches Task::Host(action) ==> suits(input, build.vcpus, action)) by {
            if let Task::Host(action) = build.todo[j] {
                lemma_boot_holds(input.resources, action);
                assert(build.todo.contains(build.todo[j]));
            }
        }
    }
    let create = Action::Vmm(VmmAction::CreateVcpus { count: input.resources.vcpu_count });
    lemma_boot_holds(input.resources, create);
    assert forall|a: int, b: int| 0 <= a < b < outcomes.len() implies !(#[trigger] outcomes[a]
        is Vcpus && #[trigger] outcomes[b] is Vcpus) by {
        if outcomes[a] is Vcpus && outcomes[b] is Vcpus {
            law_boot_goes_by_reports(input, build, outcomes, a);
            law_boot_goes_by_reports(input, build, outcomes, b);
            law_asked_once(create, input, build, outcomes, a, b);
        }
    }
    lemma_run_suits(input, build, outcomes, k);
}

/// Every step that restoring a machine asks the host for suits what it is about.
pub proof fn law_restoration_suits(input: BuildInput, outcomes: Seq<Outcome>, k: int)
    requires
        can_restore(input),
        is_run(input, snapshot_build(input), outcomes),
        0 <= k < outcomes.len(),
    ensures
        suits(
            input,
            run(input, snapshot_build(input), outcomes).vcpus,
            asked(input, snapshot_build(input), outcomes)[k],
        ),
{
    let build = snapshot_build(input);
    lemma_snapshot_build(input);
    law_run_keeps_build(input, build, outcomes);
    assert(all_suit(input, build.vcpus, build.todo)) by {
        assert forall|j: int| 0 <= j < build.todo.len() implies (#[trigger] build.todo[j]
            matches Task::Host(action) ==> suits(input, build.vcpus, action)) by {
            if let Task::Host(action) = build.todo[j] {
                lemma_restoration_holds(input.resources, input.source->Snapshot_0, action);
                assert(build.todo.contains(build.todo[j]));
            }
        }
    }
    let create = Action::Vmm(VmmAction::CreateVcpus { count: input.resources.vcpu_count });
    lemma_restoration_holds(input.resources, input.source->Snapshot_0, create);
    assert forall|a: int, b: int| 0 <= a < b < outcomes.len() implies !(#[trigger] outcomes[a]
        is Vcpus && #[trigger] outcomes[b] is Vcpus) by {
        if outcomes[a] is Vcpus && outcomes[b] is Vcpus {
            law_restoration_goes_by_snapshot_and_reports(input, outcomes, a);
            law_restoration_goes_by_snapshot_and_reports(input, outcomes, b);
            law_asked_once(create, input, build, outcomes, a, b);
        }
    }
    lemma_run_suits(input, build, outcomes, k);
}

/// A build succeeds only with each device that got its number on the bus created under that number, at
/// the address of that number, and placed in the slot of that number. A bus has 32 of them.
pub proof fn law_passthrough_is_placed_by_its_number(
    input: BuildInput,
    build: BuildModel,
    outcomes: Seq<Outcome>,
    at: int,
    i: usize,
    device_id: u32,
)
    requires
        is_build_of(input, build),
        build.verdict is Running,
        is_run(input, build, outcomes),
        run(input, build, outcomes).verdict is Built,
        0 <= at < outcomes.len(),
        asked(input, build, outcomes)[at] == Action::Vfio(i, VfioAction::NextDeviceId),
        outcomes[at] == Outcome::DeviceId(device_id),
    ensures
        asked(input, build, outcomes).contains(
            Action::Vfio(
                i,
                VfioAction::CreateDevice {
                    id: device_id,
                    bdf: ((device_id * 8) % 0x1_0000_0000) as u32,
                },
            ),
        ),
        asked(input, build, outcomes).contains(
            Action::Vfio(i, VfioAction::Pci(PciAction::AllocateBars { device: device_id % 32 })),
        ),
        asked(input, build, outcomes).contains(Action::Vfio(i, VfioAction::CreateContainer)),
        asked(input, build, outcomes).contains(Action::Vfio(i, VfioAction::OpenDevice)),
{
    let now = run(input, build, outcomes.take(at));
    let followed = vfio_device_plan(i, device_id, now.regions);
    law_passthrough_at_its_number(i, device_id, now.regions);
    assert(followed.contains(followed[0]) && followed.contains(followed[1]) && followed.contains(
        followed[2],
    ) && followed.contains(followed[3]));
    law_built_did_what_followed(input, build, outcomes, at, followed[0]->Host_0);
    law_built_did_what_followed(input, build, outcomes, at, followed[1]->Host_0);
    law_built_did_what_followed(input, build, outcomes, at, followed[2]->Host_0);
    law_built_did_what_followed(input, build, outcomes, at, followed[3]->Host_0);
}

/// A build succeeds only with each virtio device that got its address on the bus created at that
/// address, with a vector for each of its queues and one more, and placed in the slot of the address.
pub proof fn law_device_is_placed_by_its_address(
    input: BuildInput,
    build: BuildModel,
    outcomes: Seq<Outcome>,
    at: int,
    device: DeviceHandle,
    bus: int,
    slot: int,
    function: int,
)
    requires
        is_build_of(input, build),
        build.verdict is Running,
        is_run(input, build, outcomes),
        run(input, build, outcomes).verdict is Built,
        0 <= bus,
        0 <= slot < 32,
        0 <= function < 8,
        bus * 256 + slot * 8 + function <= u32::MAX,
        0 <= at < outcomes.len(),
        asked(input, build, outcomes)[at] == Action::Attach(device, AttachAction::NextDeviceBdf),
        outcomes[at] == Outcome::Bdf((bus * 256 + slot * 8 + function) as u32),
    ensures
        asked(input, build, outcomes).contains(
            Action::Attach(
                device,
                AttachAction::CreateVirtioPci {
                    msix_num: ((input.resources.spec_device(device).queues + 1) % 0x1_0000) as u16,
                    bdf: (bus * 256 + slot * 8 + function) as u32,
                    use_64bit_bar: input.resources.spec_device(device).device_type != 2,
                },
            ),
        ),
        asked(input, build, outcomes).contains(
            Action::Attach(
                device,
                AttachAction::Pci(PciAction::AllocateBars { device: slot as u32 }),
            ),
        ),
        asked(input, build, outcomes).contains(
            Action::Attach(device, AttachAction::ConfigBarAddress),
        ),
{
    let info = input.resources.spec_device(device);
    let followed = bdf_plan(device, info, (bus * 256 + slot * 8 + function) as u32);
    law_device_is_created_at_its_address(device, info, bus, slot, function);
    assert(followed.contains(followed[0]) && followed.contains(followed[1]) && followed.contains(
        followed[2],
    ));
    law_built_did_what_followed(input, build, outcomes, at, followed[0]->Host_0);
    law_built_did_what_followed(input, build, outcomes, at, followed[1]->Host_0);
    law_built_did_what_followed(input, build, outcomes, at, followed[2]->Host_0);
}

/// A build succeeds only with the event of each queue of a device tied to its address behind where the
/// host said that the configuration of the device lies.
pub proof fn law_queues_are_tied_to_their_addresses(
    input: BuildInput,
    build: BuildModel,
    outcomes: Seq<Outcome>,
    at: int,
    device: DeviceHandle,
    bar_addr: u64,
    queue: usize,
)
    requires
        is_build_of(input, build),
        build.verdict is Running,
        is_run(input, build, outcomes),
        run(input, build, outcomes).verdict is Built,
        0 <= at < outcomes.len(),
        asked(input, build, outcomes)[at] == Action::Attach(device, AttachAction::ConfigBarAddress),
        outcomes[at] == Outcome::BarAddress(bar_addr),
        queue < input.resources.spec_device(device).queue_events,
    ensures
        asked(input, build, outcomes).contains(
            Action::Attach(
                device,
                AttachAction::RegisterIoevent {
                    queue,
                    addr: (bar_addr + 0x6000 + 4 * queue) as u64,
                },
            ),
        ),
{
    let queue_events = input.resources.spec_device(device).queue_events;
    let followed = notify_plan(device, queue_events, bar_addr);
    law_asked_is_allowed(input, build, outcomes, at);
    law_every_queue_has_its_address(device, queue_events, bar_addr);
    assert(followed.contains(followed[queue as int]));
    law_built_did_what_followed(input, build, outcomes, at, followed[queue as int]->Host_0);
}

/// The step inserts a device where one of its registers says.
pub open spec fn inserts(arch: Arch, bar: PciBarConfiguration, action: PciAction) -> bool {
    if bar.region_type == PciBarRegionType::IoRegion {
        arch == Arch::X86_64 && action == (PciAction::InsertIoBus { addr: bar.addr, size: bar.size })
    } else {
        action == (PciAction::InsertMmioBus { addr: bar.addr, size: bar.size })
    }
}

proof fn lemma_bar_is_mapped(arch: Arch, bars: Seq<PciBarConfiguration>, k: int, action: PciAction)
    requires
        0 <= k < bars.len(),
        inserts(arch, bars[k], action),
    ensures
        mapping_plan(arch, bars).contains(action),
    decreases bars.len(),
{
    let before = mapping_plan(arch, bars.drop_last());
    let last = bar_action(arch, bars.last());
    let all = mapping_plan(arch, bars);
    if k < bars.len() - 1 {
        lemma_bar_is_mapped(arch, bars.drop_last(), k, action);
        let i = choose|i: int| 0 <= i < before.len() && before[i] == action;
        assert(all[i] == action);
    } else {
        assert(last[0] == action);
        assert(all[before.len() as int] == action);
    }
}

/// A build succeeds only with each device whose registers were allocated added to the bus in the slot
/// that they were allocated for, and inserted where each of them says, at its address and with its size.
pub proof fn law_device_is_inserted_where_its_registers_say(
    input: BuildInput,
    build: BuildModel,
    outcomes: Seq<Outcome>,
    at: int,
    slot: u32,
    bars: Vec<PciBarConfiguration>,
    k: int,
    action: PciAction,
    device: DeviceHandle,
    i: usize,
)
    requires
        is_build_of(input, build),
        build.verdict is Running,
        is_run(input, build, outcomes),
        run(input, build, outcomes).verdict is Built,
        0 <= at < outcomes.len(),
        outcomes[at] == Outcome::Bars(bars),
        action == (PciAction::AddDevice { device: slot }) || 0 <= k < bars@.len() && inserts(
            input.resources.arch,
            bars@[k],
            action,
        ),
    ensures
        asked(input, build, outcomes)[at] == Action::Attach(
            device,
            AttachAction::Pci(PciAction::AllocateBars { device: slot }),
        ) ==> asked(input, build, outcomes).contains(
            Action::Attach(device, AttachAction::Pci(action)),
        ),
        asked(input, build, outcomes)[at] == Action::Vfio(
            i,
            VfioAction::Pci(PciAction::AllocateBars { device: slot }),
        ) ==> asked(input, build, outcomes).contains(Action::Vfio(i, VfioAction::Pci(action))),
{
    let arch = input.resources.arch;
    let plan = bars_plan(arch, slot, bars@);
    let now = run(input, build, outcomes.take(at));
    law_device_is_added_and_then_inserted(arch, slot, bars@);
    if action != (PciAction::AddDevice { device: slot }) {
        lemma_bar_is_mapped(arch, bars@, k, action);
    }
    let j = if action == (PciAction::AddDevice { device: slot }) {
        0
    } else {
        let m = choose|m: int|
            0 <= m < mapping_plan(arch, bars@).len() && mapping_plan(arch, bars@)[m] == action;
        assert(plan.skip(1)[m] == action);
        m + 1
    };
    assert(plan[j] == action);
    let all = asked(input, build, outcomes);
    let followed = follow_up(input, now, all[at], outcomes[at]);
    if all[at] == Action::Attach(
        device,
        AttachAction::Pci(PciAction::AllocateBars { device: slot }),
    ) {
        let found = Action::Attach(device, AttachAction::Pci(action));
        assert(followed[j] == Task::Host(found));
        law_built_did_what_followed(input, build, outcomes, at, found);
    }
    if all[at] == Action::Vfio(i, VfioAction::Pci(PciAction::AllocateBars { device: slot })) {
        let found = Action::Vfio(i, VfioAction::Pci(action));
        assert(followed[j] == Task::Host(found));
        law_built_did_what_followed(input, build, outcomes, at, found);
    }
}

} // verus!
