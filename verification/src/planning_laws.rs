//! What a build decides by itself, and what it takes from the host.
use crate::builder::{boot_and_run_plan, boot_input, snapshot_input};
use crate::cmdline::{contains_text, model};
use crate::cmdline_laws::boots;
use crate::laws::{
    asked, has_come_to, is_run, law_asked_is_allowed, law_built_did_what_was_planned,
    law_phases_in_order, law_run_keeps_build, lemma_run_after, phase, planned, run,
};
use crate::layout::leaves_device_area;
use crate::machine_laws::{is_configured, passthrough_count};
use crate::model::{
    begin, can_begin, creates_vcpus, fits, has_console, is_build_of, is_prepared, is_task_of,
    needs_vcpus, settle, BuildModel, Verdict,
};
use crate::recipe::{
    boot_plan, boot_timer_plan, devices_plan, launch_plan, machine_plan, passthrough_plan,
    platform_plan,
};
use crate::recipe_laws::{law_boot_is_in_order, lemma_boot_build, lemma_contained_in_turn};
use crate::resources::{
    Arch, BuildInput, DeviceHandle, SnapshotInfo, Source, ThreadCategory, VmResources,
};
use crate::root::root_arguments;
use crate::task::{
    Action, AttachAction, LegacyAction, Outcome, PciAction, RestoreAction, SerialAction, Task,
    VfioAction, VmmAction,
};
use crate::vfio::vfio_plan;
use crate::virtio::{law_room_for_notifications, virtio_plan};
use crate::vmm::{law_serial_device_serves_the_console, legacy_plan};
use vstd::prelude::*;

verus! {

/// The kernel is told of a console where its command line says so somewhere.
pub proof fn law_console_is_found_anywhere(before: Seq<char>, after: Seq<char>, text: Seq<char>)
    ensures
        has_console(before + "console="@ + after),
        has_console(text) ==> exists|i: int|
            0 <= i <= text.len() - 8 && #[trigger] text.subrange(i, i + 8) == "console="@,
{
    reveal_strlit("console=");
    let whole = before + "console="@ + after;
    let i = before.len() as int;
    assert("console="@.len() == 8);
    assert(whole.subrange(i, i + 8) =~= "console="@);
    if has_console(text) {
        let k = choose|k: int|
            0 <= k <= text.len() - "console="@.len() && #[trigger] text.subrange(
                k,
                k + "console="@.len(),
            ) == "console="@;
        assert(text.subrange(k, k + 8) == "console="@);
    }
}

/// A build that comes to the legacy devices goes on with the clock alone where the kernel is told of no
/// console, and with the serial device before it where it is. A command line that cannot be read ends
/// the build.
pub proof fn law_console_decides_on_serial_device(input: BuildInput, build: BuildModel)
    requires
        build.todo.len() > 0,
        build.todo[0] == Task::PlanLegacyDevices,
        build.verdict is Running,
        build.cmdline is Some,
    ensures
        ({
            let rest = build.todo.drop_first();
            let clock = Task::Host(Action::Legacy(LegacyAction::RegisterRtc));
            let after = settle(input, build);
            match build.cmdline->0.text() {
                None => after.verdict is UnreadableCmdline,
                Some(text) => {
                    &&& after.verdict is Running
                    &&& !contains_text(text, "console="@) ==> after.todo == seq![clock] + rest
                    &&& contains_text(text, "console="@) ==> {
                        &&& after.todo.len() == 8 + rest.len()
                        &&& after.todo[5] == Task::Host(
                            Action::Legacy(LegacyAction::RegisterSerial),
                        )
                        &&& after.todo[6] == Task::Host(
                            Action::Legacy(LegacyAction::AddSerialToCmdline),
                        )
                        &&& after.todo[7] == clock
                        &&& after.todo.skip(8) == rest
                    }
                },
            }
        }),
{
    law_serial_device_serves_the_console();
    let rest = build.todo.drop_first();
    if build.cmdline->0.text() is Some {
        let after = settle(input, build);
        assert(contains_text(build.cmdline->0.text()->0, "console="@) ==> after.todo.skip(8)
            =~= rest);
    }
}

/// A build that comes to the vCPUs of a snapshot restores each that both exists and was saved, from its
/// own state and in order, and then goes on with the rest.
pub proof fn law_vcpus_are_restored_from_their_states(input: BuildInput, build: BuildModel, n: usize)
    requires
        build.todo.len() > 0,
        build.todo[0] == Task::PlanVcpuRestore,
        build.verdict is Running,
        input.source is Snapshot,
        n > 0,
        n <= build.vcpus,
        n <= input.source->Snapshot_0.vcpu_tsc_khz@.len(),
        n == build.vcpus || n == input.source->Snapshot_0.vcpu_tsc_khz@.len(),
    ensures
        settle(input, build).todo.len() == n + build.todo.len() - 1,
        settle(input, build).todo.skip(n as int) == build.todo.drop_first(),
        forall|index: usize|
            index < n ==> #[trigger] settle(input, build).todo[index as int] == Task::Host(
                Action::Restore(RestoreAction::RestoreVcpu { index }),
            ),
{
    assert(settle(input, build).todo.skip(n as int) =~= build.todo.drop_first());
}

/// A build that comes to a filter goes on with the rest where a filter of that name is there, and
/// otherwise ends for want of it.
pub proof fn law_filter_lets_build_go_on(input: BuildInput, build: BuildModel, category: ThreadCategory)
    requires
        build.todo.len() > 0,
        build.todo[0] == Task::RequireFilter(category),
        build.verdict is Running,
    ensures
        ({
            let name = match category {
                ThreadCategory::Vcpu => "vcpu"@,
                ThreadCategory::Vmm => "vmm"@,
            };
            let names = input.seccomp_filters@;
            let found = exists|k: int| 0 <= k < names.len() && (#[trigger] names[k])@ == name;
            &&& found ==> settle(input, build) == settle(
                input,
                BuildModel { todo: build.todo.drop_first(), ..build },
            )
            &&& !found ==> settle(input, build).verdict == Verdict::MissingFilter(category)
        }),
{
}

/// A build with nothing left has succeeded, and one that comes to work of the host waits for that.
pub proof fn law_build_waits_for_the_host(input: BuildInput, build: BuildModel)
    requires
        build.verdict is Running,
    ensures
        build.todo.len() == 0 ==> settle(input, build).verdict is Built,
        build.todo.len() > 0 && build.todo[0] is Host ==> settle(input, build) == build,
{
}

/// The action is one of those whose outcome tells something.
pub open spec fn has_something_to_tell(action: Action) -> bool {
    match action {
        Action::AllocateGuestMemory => true,
        Action::Vmm(action) => action is CreateVcpus,
        Action::Attach(_, action) => action is NextDeviceBdf || action is ConfigBarAddress || action
            is RegisterMmio || (action matches AttachAction::Pci(PciAction::AllocateBars { .. })),
        Action::Vfio(_, action) => action is NextDeviceId || (action matches VfioAction::Pci(
            PciAction::AllocateBars { .. },
        )),
        Action::Legacy(action) => action is AddSerialToCmdline,
        Action::Restore(action) => action is CheckTscScaling,
        _ => false,
    }
}

/// The host can report that an action is done where there is nothing to tell of it. The one exception is
/// an x86_64 machine restored from no vCPU at all, whose monitor cannot be put together.
pub proof fn law_done_is_enough(input: BuildInput, action: Action)
    ensures
        fits(input, action, Outcome::Done) <==> {
            &&& !has_something_to_tell(action)
            &&& !(action == Action::Vmm(VmmAction::AssembleVmm) && input.resources.arch
                == Arch::X86_64 && (input.source matches Source::Snapshot(snapshot)
                && snapshot.vcpu_tsc_khz@.len() == 0))
        },
{
}

/// What the host can report of the actions of which there is something to tell: any guest memory that
/// leaves a PCI bus room for devices, any number of vCPUs but none where one will be asked, any
/// address, any number of a device on a bus, any registers, any command line, and whether counters have
/// to be scaled.
pub proof fn law_reports_are_taken(
    input: BuildInput,
    action: Action,
    device: DeviceHandle,
    i: usize,
    outcome: Outcome,
)
    ensures
        outcome matches Outcome::GuestMemory { last_addr, .. } ==> (fits(input, action, outcome)
            <==> action == Action::AllocateGuestMemory && (input.spec_pci_enabled()
            ==> leaves_device_area(last_addr, input.resources.layout))),
        outcome matches Outcome::Vcpus(count) && count > 0 ==> (fits(input, action, outcome)
            <==> action matches Action::Vmm(VmmAction::CreateVcpus { .. })),
        outcome == Outcome::Vcpus(0) && action is Vmm && action->Vmm_0 is CreateVcpus ==> (fits(
            input,
            action,
            outcome,
        ) <==> !(input.resources.arch == Arch::X86_64 && (input.source matches Source::Snapshot(
            snapshot,
        ) && snapshot.vcpu_tsc_khz@.len() > 0 && snapshot.vcpu_tsc_khz@[0] is Some))),
        outcome is Bdf && input.resources.spec_device(device).queues < usize::MAX ==> fits(
            input,
            Action::Attach(device, AttachAction::NextDeviceBdf),
            outcome,
        ),
        outcome is Bdf && fits(input, action, outcome) ==> action matches Action::Attach(
            _,
            AttachAction::NextDeviceBdf,
        ),
        outcome is DeviceId && fits(input, action, outcome) ==> action matches Action::Vfio(
            _,
            VfioAction::NextDeviceId,
        ),
        outcome is BarAddress && fits(input, action, outcome) ==> action matches Action::Attach(
            _,
            AttachAction::ConfigBarAddress,
        ),
        outcome is DeviceId ==> (fits(input, Action::Vfio(i, VfioAction::NextDeviceId), outcome)
            <==> input.spec_pci_enabled()),
        outcome is Bars ==> (fits(input, action, outcome) <==> {
            ||| action matches Action::Attach(_, AttachAction::Pci(PciAction::AllocateBars { .. }))
            ||| action matches Action::Vfio(_, VfioAction::Pci(PciAction::AllocateBars { .. }))
        }),
        outcome matches Outcome::BarAddress(bar_addr) ==> (fits(
            input,
            Action::Attach(device, AttachAction::ConfigBarAddress),
            outcome,
        ) <==> forall|q: int|
            0 <= q < input.resources.spec_device(device).queue_events ==> bar_addr + 0x6000
                + #[trigger] (4 * q) <= u64::MAX),
        outcome is Cmdline ==> (fits(input, action, outcome) <==> {
            ||| action matches Action::Attach(_, AttachAction::RegisterMmio { .. })
            ||| action == Action::Legacy(LegacyAction::AddSerialToCmdline)
        }),
        outcome is TscScaling ==> (fits(input, action, outcome) <==> action matches Action::Restore(
            RestoreAction::CheckTscScaling { .. },
        )),
{
    if let Outcome::BarAddress(bar_addr) = outcome {
        law_room_for_notifications(bar_addr, input.resources.spec_device(device).queue_events);
    }
}

/// Each device of a configuration can be attached by itself where a machine boots, and the devices that
/// are passed through can be, once there is guest memory.
pub proof fn law_devices_can_be_attached_alone(
    input: BuildInput,
    device: DeviceHandle,
    is_vhost_user: bool,
)
    requires
        input.source is Boot,
        input.resources.boot_config is Some,
        input.resources.has_device(device),
    ensures
        can_begin(input, virtio_plan(device, input.spec_pci_enabled(), is_vhost_user)),
        input.resources.has_vfio() ==> can_begin(
            input,
            seq![Task::Host(Action::AllocateGuestMemory)] + vfio_plan(
                input.resources.vfio_devices().len(),
            ),
        ),
        can_begin(input, seq![]),
{
    let memory = seq![Task::Host(Action::AllocateGuestMemory)];
    let tasks = memory + vfio_plan(input.resources.vfio_devices().len());
    if input.resources.has_vfio() {
        assert(input.resources.vfio_devices().len()
            == input.resources.pci_config->0.vfio_devices->0.len());
        assert(tasks[0] == Task::Host(Action::AllocateGuestMemory));
        assert forall|k: int| 0 <= k < tasks.len() implies is_task_of(input, #[trigger] tasks[k])
            && is_prepared(input, tasks, k) by {}
    }
}

/// A build that comes to a root device goes on with the arguments of that device on its command line,
/// and ends with the refusal where the command line refuses them.
pub proof fn law_root_device_is_named(input: BuildInput, build: BuildModel, i: usize)
    requires
        build.todo.len() > 0,
        build.todo[0] == Task::RootArguments(i),
        build.verdict is Running,
        build.cmdline is Some,
        i < input.resources.block@.len(),
    ensures
        ({
            let (cmdline, refused) = root_arguments(
                build.cmdline->0,
                input.resources.block@[i as int],
            );
            match refused {
                None => settle(input, build) == settle(
                    input,
                    BuildModel {
                        todo: build.todo.drop_first(),
                        cmdline: Some(cmdline),
                        ..build
                    },
                ),
                Some(err) => settle(input, build).verdict == Verdict::BadCmdline(err),
            }
        }),
{
}

/// A recipe works from what it was given.
pub proof fn law_recipes_work_from_what_they_are_given(
    resources: VmResources,
    seccomp_filters: Vec<String>,
    snapshot: SnapshotInfo,
)
    ensures
        boot_input(resources, seccomp_filters).resources == resources,
        boot_input(resources, seccomp_filters).seccomp_filters == seccomp_filters,
        boot_input(resources, seccomp_filters).source is Boot,
        snapshot_input(resources, seccomp_filters, snapshot).resources == resources,
        snapshot_input(resources, seccomp_filters, snapshot).seccomp_filters == seccomp_filters,
        snapshot_input(resources, seccomp_filters, snapshot).source == Source::Snapshot(snapshot),
{
}

/// A build that begins knows the memory of its snapshot, or none; has the configured command line where
/// a kernel is booted; and has no vCPUs yet.
pub proof fn law_build_begins_with_what_is_there(input: BuildInput, tasks: Seq<Task>)
    ensures
        begin(input, tasks).todo == tasks,
        begin(input, tasks).vcpus == 0,
        begin(input, tasks).verdict is Running,
        input.source matches Source::Snapshot(snapshot) ==> {
            &&& begin(input, tasks).last_addr == snapshot.last_addr
            &&& begin(input, tasks).regions == snapshot.regions@
            &&& begin(input, tasks).cmdline is None
        },
        input.source is Boot ==> {
            &&& begin(input, tasks).regions.len() == 0
            &&& begin(input, tasks).cmdline == Some(model(input.resources.boot_config->0.cmdline))
        },
{
}

/// Whatever a build is made of, the host is asked only for what the machine has: the legacy devices are
/// those of an aarch64 machine that boots, the port I/O devices those of an x86_64 machine; only a
/// machine with a snapshot is restored; and only devices that are configured are attached or passed
/// through.
pub proof fn law_work_keeps_to_the_machine(
    input: BuildInput,
    build: BuildModel,
    outcomes: Seq<Outcome>,
    k: int,
)
    requires
        is_build_of(input, build),
        is_run(input, build, outcomes),
        0 <= k < outcomes.len(),
    ensures
        ({
            let action = asked(input, build, outcomes)[k];
            &&& action is Legacy ==> input.source is Boot && input.resources.arch == Arch::Aarch64
            &&& action is Restore ==> input.source is Snapshot
            &&& action matches Action::Vmm(step) ==> (step is SetStdoutNonblocking || step is Serial
                || step is CloneExitEvent || step is CreatePortIoManager || step
                is RegisterPortIoDevices ==> input.resources.arch == Arch::X86_64)
            &&& action matches Action::Attach(device, _) ==> is_configured(input.resources, device)
            &&& action matches Action::Vfio(i, _) ==> (passthrough_count(input.resources)
                matches Some(count) && i < count)
        }),
{
    law_asked_is_allowed(input, build, outcomes, k);
    if let Action::Attach(device, _) = asked(input, build, outcomes)[k] {
        assert(input.resources.has_device(device));
    }
}

/// An aarch64 machine is booted only with its clock registered, and, where the kernel is told of a
/// console once the other devices are there, only with the serial device set up, registered and put on
/// the command line.
pub proof fn law_aarch64_machine_has_its_legacy_devices(
    input: BuildInput,
    build: BuildModel,
    outcomes: Seq<Outcome>,
) -> (at: int)
    requires
        boots(input, build),
        input.resources.arch == Arch::Aarch64,
        is_run(input, build, outcomes),
        run(input, build, outcomes).verdict is Built,
    ensures
        0 <= at <= outcomes.len(),
        asked(input, build, outcomes).contains(Action::Legacy(LegacyAction::RegisterRtc)),
        forall|k: int|
            at <= k < outcomes.len() ==> !(#[trigger] asked(input, build, outcomes)[k] is Attach),
        ({
            let all = asked(input, build, outcomes);
            &&& run(input, build, outcomes.take(at)).cmdline->0.text() matches Some(text)
            &&& contains_text(text, "console="@) ==> {
                &&& forall|step: SerialAction|
                    #[trigger] all.contains(Action::Legacy(LegacyAction::Serial(step)))
                &&& all.contains(Action::Legacy(LegacyAction::SetStdoutNonblocking))
                &&& all.contains(Action::Legacy(LegacyAction::RegisterSerial))
                &&& all.contains(Action::Legacy(LegacyAction::AddSerialToCmdline))
            }
        }),
{
    let resources = input.resources;
    let pci = resources.spec_pci_enabled(true);
    let before = machine_plan(resources, pci) + boot_timer_plan(resources) + devices_plan(
        resources,
        pci,
    ) + passthrough_plan(resources);
    let legacy = platform_plan(resources);
    let resume = seq![Task::Host(Action::ResumeVm)];
    lemma_boot_build(input);
    law_boot_is_in_order(input);
    assert(legacy[0] == Task::PlanLegacyDevices);
    lemma_contained_in_turn(before, legacy, Task::PlanLegacyDevices);
    lemma_contained_in_turn(before + legacy, launch_plan(resources), Task::PlanLegacyDevices);
    lemma_contained_in_turn(boot_plan(resources), resume, Task::PlanLegacyDevices);
    assert(boot_and_run_plan(resources) =~= boot_plan(resources) + resume);
    let at = law_built_did_what_was_planned(
        true,
        input,
        build,
        outcomes,
        Task::PlanLegacyDevices,
    );
    let now = run(input, build, outcomes.take(at));
    let plan = planned(input, now, Task::PlanLegacyDevices);
    let all = asked(input, build, outcomes);
    let text = now.cmdline->0.text()->0;
    law_serial_device_serves_the_console();
    assert(plan == legacy_plan(has_console(text)));
    assert(plan.contains(Task::Host(Action::Legacy(LegacyAction::RegisterRtc)))) by {
        assert(plan.last() == Task::Host(Action::Legacy(LegacyAction::RegisterRtc)));
    }
    assert(all.contains(Action::Legacy(LegacyAction::RegisterRtc)));
    if contains_text(text, "console="@) {
        assert forall|step: SerialAction|
            #[trigger] all.contains(Action::Legacy(LegacyAction::Serial(step))) by {
            let task = Task::Host(Action::Legacy(LegacyAction::Serial(step)));
            assert(plan[1] == task || plan[2] == task || plan[3] == task || plan[4] == task);
            assert(plan.contains(task));
        }
        assert(plan.contains(plan[0]) && plan.contains(plan[5]) && plan.contains(plan[6]));
        assert(all.contains(Action::Legacy(LegacyAction::SetStdoutNonblocking)));
        assert(all.contains(Action::Legacy(LegacyAction::RegisterSerial)));
        assert(all.contains(Action::Legacy(LegacyAction::AddSerialToCmdline)));
    }
    law_run_keeps_build(input, build, outcomes);
    assert forall|k: int| at <= k < outcomes.len() implies !(#[trigger] all[k] is Attach) by {
        lemma_run_after(input, build, outcomes, at);
        lemma_no_attachment_left(input, now, outcomes.skip(at), k - at);
        assert(all.skip(at)[k - at] == all[k]);
    }
    at
}

proof fn lemma_no_attachment_left(
    input: BuildInput,
    build: BuildModel,
    outcomes: Seq<Outcome>,
    k: int,
)
    requires
        is_build_of(input, build),
        is_run(input, build, outcomes),
        has_come_to(true, build, Task::PlanLegacyDevices),
        0 <= k < outcomes.len(),
    ensures
        !(asked(input, build, outcomes)[k] is Attach),
{
    law_run_keeps_build(input, build, outcomes);
    assert(build.todo[0] == Task::Host(asked(input, build, outcomes)[0]));
    assert(phase(true, build.todo[0]) >= 15);
    if k > 0 {
        law_phases_in_order(true, input, build, outcomes, 0, k);
    }
}

/// Whatever a build is made of, guest memory of a machine that boots is allocated before a bus is laid
/// out behind it or a device is passed through to it, and vCPUs are created before they are asked for
/// their counters or restored.
pub proof fn law_builds_are_prepared(input: BuildInput, tasks: Seq<Task>, k: int)
    requires
        can_begin(input, tasks),
        0 <= k < tasks.len(),
    ensures
        input.source is Boot && (tasks[k] == Task::PlanPci || (tasks[k] matches Task::Host(
            Action::Vfio(_, VfioAction::NextDeviceId),
        ))) ==> exists|j: int|
            0 <= j < k && #[trigger] tasks[j] == Task::Host(Action::AllocateGuestMemory),
        tasks[k] == Task::PlanVcpuRestore || (tasks[k] matches Task::Host(
            Action::Restore(RestoreAction::CheckTscScaling { .. }),
        )) ==> exists|j: int|
            0 <= j < k && (#[trigger] tasks[j] matches Task::Host(
                Action::Vmm(VmmAction::CreateVcpus { .. }),
            )),
{
    assert(is_prepared(input, tasks, k));
    if needs_vcpus(tasks[k]) {
        let j = choose|j: int| 0 <= j < k && creates_vcpus(#[trigger] tasks[j]);
        assert(tasks[j] matches Task::Host(Action::Vmm(VmmAction::CreateVcpus { .. })));
    }
}

/// A build can begin with a kernel to boot, or with a snapshot whose memory leaves a PCI bus its room.
pub proof fn law_builds_have_a_source(input: BuildInput, tasks: Seq<Task>)
    requires
        can_begin(input, tasks),
    ensures
        input.source is Boot ==> input.resources.boot_config is Some,
        input.source matches Source::Snapshot(snapshot) ==> (input.spec_pci_enabled()
            ==> leaves_device_area(snapshot.last_addr, input.resources.layout)),
{
}

} // verus!
