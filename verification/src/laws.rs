//! What holds of every build, whatever the host reports.
use crate::layout::spec_pci_layout;
use crate::model::{
    are_tasks_of, fits, follow_up, has_console, is_build_of, is_task_of, law_step_keeps_build, learn,
    lemma_follow_up, settle, step, BuildModel, Verdict,
};
use crate::recipe::{restored_vcpus, vcpu_restore_plan};
use crate::resources::{is_one_of, Arch, BuildInput, DeviceHandle, ThreadCategory};
use crate::root::root_arguments;
use crate::task::{Action, Outcome, RestoreAction, Task};
use crate::vmm::{legacy_plan, pci_setup_plan};
use vstd::prelude::*;

verus! {

/// The host can report the outcomes one after the other.
pub open spec fn is_run(input: BuildInput, build: BuildModel, outcomes: Seq<Outcome>) -> bool
    decreases outcomes.len(),
{
    outcomes.len() > 0 ==> {
        &&& build.verdict is Running
        &&& fits(input, build.todo[0]->Host_0, outcomes[0])
        &&& is_run(input, step(input, build, outcomes[0]), outcomes.drop_first())
    }
}

/// The build once the host has reported the outcomes.
pub open spec fn run(input: BuildInput, build: BuildModel, outcomes: Seq<Outcome>) -> BuildModel
    decreases outcomes.len(),
{
    if outcomes.len() == 0 {
        build
    } else {
        run(input, step(input, build, outcomes[0]), outcomes.drop_first())
    }
}

/// The actions that the host was asked for when it reported the outcomes.
pub open spec fn asked(input: BuildInput, build: BuildModel, outcomes: Seq<Outcome>) -> Seq<Action>
    decreases outcomes.len(),
{
    if outcomes.len() == 0 {
        seq![]
    } else {
        seq![build.todo[0]->Host_0] + asked(
            input,
            step(input, build, outcomes[0]),
            outcomes.drop_first(),
        )
    }
}

/// A build stays one, whatever the host reports.
pub proof fn law_run_keeps_build(input: BuildInput, build: BuildModel, outcomes: Seq<Outcome>)
    requires
        is_build_of(input, build),
        is_run(input, build, outcomes),
    ensures
        is_build_of(input, run(input, build, outcomes)),
        asked(input, build, outcomes).len() == outcomes.len(),
    decreases outcomes.len(),
{
    if outcomes.len() > 0 {
        law_step_keeps_build(input, build, outcomes[0]);
        law_run_keeps_build(input, step(input, build, outcomes[0]), outcomes.drop_first());
    }
}

/// The first failure ends a build: the host is asked for nothing after it, and the build stands at
/// the action that failed, with the cause that the host gave.
pub proof fn law_failure_ends_build(
    input: BuildInput,
    build: BuildModel,
    outcomes: Seq<Outcome>,
    i: int,
)
    requires
        is_build_of(input, build),
        is_run(input, build, outcomes),
        0 <= i < outcomes.len(),
        outcomes[i] is Failed,
    ensures
        i == outcomes.len() - 1,
        run(input, build, outcomes).verdict == Verdict::HostFailed(
            asked(input, build, outcomes)[i],
            outcomes[i]->Failed_0,
        ),
    decreases outcomes.len(),
{
    let next = step(input, build, outcomes[0]);
    let rest = outcomes.drop_first();
    law_run_keeps_build(input, build, outcomes);
    law_step_keeps_build(input, build, outcomes[0]);
    if i > 0 {
        law_failure_ends_build(input, next, rest, i - 1);
        assert(rest[i - 1] == outcomes[i]);
        assert(asked(input, build, outcomes)[i] == asked(input, next, rest)[i - 1]);
    } else {
        assert(is_run(input, next, rest));
        assert(run(input, next, rest) == next);
    }
}

/// A build fails only for a reason: the host failed at the last action, there is no filter for the
/// threads of a category, the configuration has a root device whose arguments go on the command
/// line, or the command line has to be read for the legacy devices.
pub open spec fn has_reason(input: BuildInput, verdict: Verdict, outcomes: Seq<Outcome>) -> bool {
    match verdict {
        Verdict::Running | Verdict::Built => true,
        Verdict::HostFailed(_, _) => outcomes.len() > 0 && outcomes.last() is Failed,
        Verdict::MissingFilter(category) => !is_one_of(
            category.spec_name(),
            input.seccomp_filters@,
        ),
        Verdict::BadCmdline(_) => {
            &&& input.source is Boot
            &&& exists|i: int|
                0 <= i < input.resources.block@.len()
                    && (#[trigger] input.resources.block@[i]).root_device
        },
        Verdict::UnreadableCmdline => {
            &&& input.source is Boot
            &&& input.resources.arch == Arch::Aarch64
        },
    }
}

proof fn lemma_settle_reason(input: BuildInput, build: BuildModel, outcomes: Seq<Outcome>)
    requires
        build.verdict is Running,
        are_tasks_of(input, build.todo),
    ensures
        has_reason(input, settle(input, build).verdict, outcomes),
        !(settle(input, build).verdict is HostFailed),
    decreases build.todo.len(),
{
    if build.todo.len() > 0 {
        let rest = build.todo.drop_first();
        assert(is_task_of(input, build.todo[0]));
        assert(are_tasks_of(input, rest));
        match build.todo[0] {
            Task::RootArguments(block) => {
                let (cmdline, err) = root_arguments(
                    build.cmdline->0,
                    input.resources.block@[block as int],
                );
                assert(input.resources.block@[block as int].root_device);
                lemma_settle_reason(
                    input,
                    BuildModel { todo: rest, cmdline: Some(cmdline), ..build },
                    outcomes,
                );
            },
            Task::PlanVcpuRestore | Task::RequireFilter(_) => {
                lemma_settle_reason(input, BuildModel { todo: rest, ..build }, outcomes);
            },
            _ => {},
        }
    }
}

/// A build that ends without a reason to fail has succeeded.
pub proof fn law_build_fails_for_a_reason(
    input: BuildInput,
    build: BuildModel,
    outcomes: Seq<Outcome>,
)
    requires
        is_build_of(input, build),
        build.verdict is Running,
        is_run(input, build, outcomes),
    ensures
        has_reason(input, run(input, build, outcomes).verdict, outcomes),
    decreases outcomes.len(),
{
    if outcomes.len() > 0 {
        let next = step(input, build, outcomes[0]);
        let rest = outcomes.drop_first();
        let action = build.todo[0]->Host_0;
        law_step_keeps_build(input, build, outcomes[0]);
        assert(is_run(input, next, rest));
        if outcomes[0] is Failed {
            assert(rest.len() == 0);
            assert(run(input, next, rest) == next);
        } else {
            let followed = follow_up(input, build, action, outcomes[0]);
            assert(is_task_of(input, build.todo[0]));
            lemma_follow_up(input, build, action, outcomes[0]);
            lemma_settle_reason(
                input,
                BuildModel {
                    todo: followed + build.todo.drop_first(),
                    ..learn(build, outcomes[0])
                },
                outcomes,
            );
            if next.verdict is Running {
                law_build_fails_for_a_reason(input, next, rest);
                assert(rest.len() > 0 ==> rest.last() == outcomes.last());
            } else {
                assert(rest.len() == 0);
                assert(run(input, next, rest) == next);
            }
        }
    }
}

proof fn lemma_settle_keeps_host_work(input: BuildInput, build: BuildModel, action: Action)
    requires
        build.verdict is Running,
        build.todo.contains(Task::Host(action)),
    ensures
        settle(input, build).todo.contains(Task::Host(action)),
        !(settle(input, build).verdict is Built),
    decreases build.todo.len(),
{
    let rest = build.todo.drop_first();
    let i = choose|i: int| 0 <= i < build.todo.len() && build.todo[i] == Task::Host(action);
    if i > 0 {
        assert(rest[i - 1] == Task::Host(action));
    }
    let settled = settle(input, build);
    match build.todo[0] {
        Task::Host(_) => {},
        Task::RootArguments(block) => {
            let (cmdline, err) = root_arguments(
                build.cmdline->0,
                input.resources.block@[block as int],
            );
            if err is None {
                lemma_settle_keeps_host_work(
                    input,
                    BuildModel { todo: rest, cmdline: Some(cmdline), ..build },
                    action,
                );
            }
        },
        Task::PlanPci | Task::PlanLegacyDevices => {
            if settled.verdict is Running {
                let added = settled.todo.len() - rest.len();
                assert(settled.todo[added + i - 1] == Task::Host(action));
            }
        },
        Task::PlanVcpuRestore => {
            let count = restored_vcpus(
                build.vcpus as nat,
                input.source->Snapshot_0.vcpu_tsc_khz@.len(),
            );
            if count == 0 {
                lemma_settle_keeps_host_work(input, BuildModel { todo: rest, ..build }, action);
            } else {
                assert(settled.todo[count + i - 1] == Task::Host(action));
            }
        },
        Task::RequireFilter(_) => {
            lemma_settle_keeps_host_work(input, BuildModel { todo: rest, ..build }, action);
        },
    }
}

/// Work that was planned is asked of the host or is still left to do.
pub proof fn law_asked_or_left(
    input: BuildInput,
    build: BuildModel,
    outcomes: Seq<Outcome>,
    action: Action,
)
    requires
        is_build_of(input, build),
        is_run(input, build, outcomes),
        build.todo.contains(Task::Host(action)),
    ensures
        asked(input, build, outcomes).contains(action) || run(
            input,
            build,
            outcomes,
        ).todo.contains(Task::Host(action)),
    decreases outcomes.len(),
{
    if outcomes.len() > 0 {
        let next = step(input, build, outcomes[0]);
        let rest = outcomes.drop_first();
        let all = asked(input, build, outcomes);
        law_step_keeps_build(input, build, outcomes[0]);
        assert(all[0] == build.todo[0]->Host_0);
        if build.todo[0] != Task::Host(action) {
            let i = choose|i: int| 0 <= i < build.todo.len() && build.todo[i] == Task::Host(action);
            let later = build.todo.drop_first();
            assert(later[i - 1] == Task::Host(action));
            if !(outcomes[0] is Failed) {
                let followed = follow_up(input, build, build.todo[0]->Host_0, outcomes[0]);
                let open = BuildModel { todo: followed + later, ..learn(build, outcomes[0]) };
                assert(open.todo[followed.len() + i - 1] == Task::Host(action));
                lemma_settle_keeps_host_work(input, open, action);
            }
            law_asked_or_left(input, next, rest, action);
            if asked(input, next, rest).contains(action) {
                let j = choose|j: int|
                    0 <= j < asked(input, next, rest).len() && asked(input, next, rest)[j] == action;
                assert(all[j + 1] == action);
            }
        }
    }
}

proof fn lemma_built_left_nothing(input: BuildInput, build: BuildModel, outcomes: Seq<Outcome>)
    requires
        is_build_of(input, build),
        is_run(input, build, outcomes),
        build.verdict is Built ==> build.todo.len() == 0,
        run(input, build, outcomes).verdict is Built,
    ensures
        run(input, build, outcomes).todo.len() == 0,
    decreases outcomes.len(),
{
    if outcomes.len() > 0 {
        let next = step(input, build, outcomes[0]);
        law_step_keeps_build(input, build, outcomes[0]);
        if !(outcomes[0] is Failed) {
            let followed = follow_up(input, build, build.todo[0]->Host_0, outcomes[0]);
            lemma_settle_built(
                input,
                BuildModel {
                    todo: followed + build.todo.drop_first(),
                    ..learn(build, outcomes[0])
                },
            );
        }
        lemma_built_left_nothing(input, next, outcomes.drop_first());
    }
}

pub(crate) proof fn lemma_settle_built(input: BuildInput, build: BuildModel)
    requires
        build.verdict is Running,
    ensures
        settle(input, build).verdict is Built ==> settle(input, build).todo.len() == 0,
    decreases build.todo.len(),
{
    if build.todo.len() > 0 {
        let rest = build.todo.drop_first();
        match build.todo[0] {
            Task::RootArguments(block) => {
                let (cmdline, err) = root_arguments(
                    build.cmdline->0,
                    input.resources.block@[block as int],
                );
                lemma_settle_built(
                    input,
                    BuildModel { todo: rest, cmdline: Some(cmdline), ..build },
                );
            },
            Task::PlanVcpuRestore | Task::RequireFilter(_) => {
                lemma_settle_built(input, BuildModel { todo: rest, ..build });
            },
            _ => {},
        }
    }
}

/// A build succeeds only after the host was asked for everything that was planned.
pub proof fn law_built_did_everything(
    input: BuildInput,
    build: BuildModel,
    outcomes: Seq<Outcome>,
    action: Action,
)
    requires
        is_build_of(input, build),
        build.verdict is Running,
        is_run(input, build, outcomes),
        run(input, build, outcomes).verdict is Built,
        build.todo.contains(Task::Host(action)),
    ensures
        asked(input, build, outcomes).contains(action),
{
    law_asked_or_left(input, build, outcomes, action);
    lemma_built_left_nothing(input, build, outcomes);
}

/// When the host is asked for the action at `i`, it has reported the outcomes before that, and the
/// action is what comes first.
pub(crate) proof fn lemma_run_before(
    input: BuildInput,
    build: BuildModel,
    outcomes: Seq<Outcome>,
    i: int,
)
    requires
        is_build_of(input, build),
        is_run(input, build, outcomes),
        0 <= i < outcomes.len(),
    ensures
        is_run(input, build, outcomes.take(i)),
        asked(input, build, outcomes.take(i)) == asked(input, build, outcomes).take(i),
        run(input, build, outcomes.take(i)).todo.len() > 0,
        run(input, build, outcomes.take(i)).todo[0] == Task::Host(
            asked(input, build, outcomes)[i],
        ),
    decreases i,
{
    law_run_keeps_build(input, build, outcomes);
    if i == 0 {
        assert(outcomes.take(0) =~= seq![]);
        assert(asked(input, build, outcomes).take(0) =~= seq![]);
    } else {
        let next = step(input, build, outcomes[0]);
        let rest = outcomes.drop_first();
        law_step_keeps_build(input, build, outcomes[0]);
        lemma_run_before(input, next, rest, i - 1);
        assert(outcomes.take(i).drop_first() =~= rest.take(i - 1));
        assert(asked(input, build, outcomes.take(i)) =~= asked(input, build, outcomes).take(i));
        assert(asked(input, build, outcomes)[i] == asked(input, next, rest)[i - 1]);
    }
}

/// What the host was asked for from the action at `i` on is what a build that begins there asks for.
pub(crate) proof fn lemma_run_after(input: BuildInput, build: BuildModel, outcomes: Seq<Outcome>, i: int)
    requires
        is_build_of(input, build),
        is_run(input, build, outcomes),
        0 <= i <= outcomes.len(),
    ensures
        is_build_of(input, run(input, build, outcomes.take(i))),
        is_run(input, run(input, build, outcomes.take(i)), outcomes.skip(i)),
        run(input, run(input, build, outcomes.take(i)), outcomes.skip(i)) == run(
            input,
            build,
            outcomes,
        ),
        asked(input, run(input, build, outcomes.take(i)), outcomes.skip(i)) == asked(
            input,
            build,
            outcomes,
        ).skip(i),
    decreases i,
{
    law_run_keeps_build(input, build, outcomes);
    if i == 0 {
        assert(outcomes.take(0) =~= seq![]);
        assert(outcomes.skip(0) =~= outcomes);
        assert(asked(input, build, outcomes).skip(0) =~= asked(input, build, outcomes));
    } else {
        let next = step(input, build, outcomes[0]);
        let rest = outcomes.drop_first();
        law_step_keeps_build(input, build, outcomes[0]);
        lemma_run_after(input, next, rest, i - 1);
        assert(outcomes.take(i).drop_first() =~= rest.take(i - 1));
        assert(outcomes.skip(i) =~= rest.skip(i - 1));
        assert(asked(input, build, outcomes).skip(i) =~= asked(input, next, rest).skip(i - 1));
    }
}

/// A build succeeds only after the host was asked for everything that followed from an outcome.
pub proof fn law_built_did_what_followed(
    input: BuildInput,
    build: BuildModel,
    outcomes: Seq<Outcome>,
    i: int,
    action: Action,
)
    requires
        is_build_of(input, build),
        is_run(input, build, outcomes),
        run(input, build, outcomes).verdict is Built,
        0 <= i < outcomes.len(),
        follow_up(
            input,
            run(input, build, outcomes.take(i)),
            asked(input, build, outcomes)[i],
            outcomes[i],
        ).contains(Task::Host(action)),
    ensures
        asked(input, build, outcomes).contains(action),
{
    let now = run(input, build, outcomes.take(i));
    let all = asked(input, build, outcomes);
    let rest = outcomes.skip(i);
    let later = rest.drop_first();
    lemma_run_before(input, build, outcomes, i);
    lemma_run_after(input, build, outcomes, i);
    law_run_keeps_build(input, build, outcomes);
    let next = step(input, now, rest[0]);
    law_step_keeps_build(input, now, rest[0]);
    assert(rest[0] == outcomes[i]);
    let followed = follow_up(input, now, all[i], outcomes[i]);
    let open = BuildModel {
        todo: followed + now.todo.drop_first(),
        ..learn(now, outcomes[i])
    };
    let k = choose|k: int| 0 <= k < followed.len() && followed[k] == Task::Host(action);
    assert(open.todo[k] == Task::Host(action));
    assert(!(outcomes[i] is Failed));
    lemma_settle_keeps_host_work(input, open, action);
    assert(is_run(input, next, later));
    if later.len() == 0 {
        assert(run(input, next, later) == next);
    }
    law_built_did_everything(input, next, later, action);
    let j = choose|j: int|
        0 <= j < asked(input, next, later).len() && asked(input, next, later)[j] == action;
    let tail = asked(input, now, rest);
    assert(tail == seq![now.todo[0]->Host_0] + asked(input, next, later));
    assert(tail[j + 1] == action);
    assert(all[i + (j + 1)] == all.skip(i)[j + 1]);
}

/// The work that a task of the build itself leads to, as far as the build knows.
pub open spec fn planned(input: BuildInput, build: BuildModel, task: Task) -> Seq<Task> {
    match task {
        Task::PlanPci => pci_setup_plan(spec_pci_layout(build.last_addr, input.resources.layout)),
        Task::PlanLegacyDevices => match build.cmdline->0.text() {
            Some(text) => legacy_plan(has_console(text)),
            None => seq![],
        },
        Task::PlanVcpuRestore => vcpu_restore_plan(
            restored_vcpus(build.vcpus as nat, input.source->Snapshot_0.vcpu_tsc_khz@.len()),
        ),
        _ => seq![],
    }
}

/// All of the tasks are left to do.
pub open spec fn holds_all(todo: Seq<Task>, tasks: Seq<Task>) -> bool {
    forall|i: int| 0 <= i < tasks.len() ==> todo.contains(#[trigger] tasks[i])
}

proof fn lemma_holds_all(first: Seq<Task>, rest: Seq<Task>)
    ensures
        holds_all(first + rest, first),
{
    let all = first + rest;
    assert forall|i: int| 0 <= i < first.len() implies all.contains(#[trigger] first[i]) by {
        assert(all[i] == first[i]);
    }
}

/// How far a build has come when it is at a task: the order in which a booted machine, or one that is
/// restored, is put together.
pub open spec fn phase(boot: bool, task: Task) -> nat {
    match task {
        Task::Host(action) => match action {
            Action::AllocateGuestMemory => 0,
            Action::LoadKernel => 1,
            Action::LoadInitrd => 2,
            Action::GetCpuTemplate => 3,
            Action::Vmm(_) => 4,
            Action::AttachDebugInfo => 5,
            Action::CloneVcpuFds => 6,
            Action::AttachBootTimer => 7,
            Action::Attach(device, _) => device_phase(device),
            Action::CreatePassthroughDevice => 13,
            Action::Vfio(_, _) => 14,
            Action::Legacy(_) => 15,
            Action::Vmgenid(_) => 16,
            Action::ConfigureSystem => 17,
            Action::StartGdb => 18,
            Action::Restore(action) => restore_phase(action),
            Action::StartVcpus => 27,
            Action::ApplySeccompFilter => if boot {
                28
            } else {
                30
            },
            Action::SubscribeVmm => 29,
            Action::ResumeVm => 31,
        },
        Task::RootArguments(_) => 9,
        Task::PlanPci => 4,
        Task::PlanLegacyDevices => 15,
        Task::PlanVcpuRestore => 20,
        Task::RequireFilter(ThreadCategory::Vcpu) => 27,
        Task::RequireFilter(ThreadCategory::Vmm) => if boot {
            28
        } else {
            30
        },
    }
}

/// The order in which virtio devices are attached.
pub open spec fn device_phase(device: DeviceHandle) -> nat {
    match device {
        DeviceHandle::Balloon => 8,
        DeviceHandle::Block(_) => 9,
        DeviceHandle::Net(_) => 10,
        DeviceHandle::Vsock => 11,
        DeviceHandle::Entropy => 12,
    }
}

/// The order in which a machine is restored.
pub open spec fn restore_phase(action: RestoreAction) -> nat {
    match action {
        RestoreAction::CheckTscScaling { .. } | RestoreAction::SetTsc { .. } => 19,
        RestoreAction::RestoreVcpu { .. } => 20,
        RestoreAction::RestoreVm => 21,
        RestoreAction::RestoreBootSource => 22,
        RestoreAction::RestoreMmioDevices { .. } => 23,
        RestoreAction::EmulateSerialInit => 24,
        RestoreAction::RestoreAcpiDevices => 25,
        RestoreAction::NotifyVmgenid => 26,
    }
}

/// No task stands behind one of a later phase.
pub open spec fn in_order(boot: bool, tasks: Seq<Task>) -> bool {
    forall|i: int, j: int|
        0 <= i <= j < tasks.len() ==> phase(boot, #[trigger] tasks[i]) <= phase(
            boot,
            #[trigger] tasks[j],
        )
}

/// No task is of an earlier phase than the given one.
pub open spec fn from_phase(boot: bool, start: nat, tasks: Seq<Task>) -> bool {
    forall|i: int| 0 <= i < tasks.len() ==> start <= phase(boot, #[trigger] tasks[i])
}

/// All tasks are of the given phase.
pub open spec fn of_phase(boot: bool, at: nat, tasks: Seq<Task>) -> bool {
    forall|i: int| 0 <= i < tasks.len() ==> at == phase(boot, #[trigger] tasks[i])
}

proof fn lemma_phase_in_turn(boot: bool, at: nat, first: Seq<Task>, rest: Seq<Task>)
    requires
        of_phase(boot, at, first),
        in_order(boot, rest),
        from_phase(boot, at, rest),
    ensures
        in_order(boot, first + rest),
        from_phase(boot, at, first + rest),
{
    let all = first + rest;
    assert forall|i: int, j: int| 0 <= i <= j < all.len() implies phase(boot, #[trigger] all[i])
        <= phase(boot, #[trigger] all[j]) by {
        if i >= first.len() {
            assert(all[i] == rest[i - first.len()]);
        }
        if j >= first.len() {
            assert(all[j] == rest[j - first.len()]);
        }
    }
}

proof fn lemma_follow_up_phase(
    boot: bool,
    input: BuildInput,
    build: BuildModel,
    action: Action,
    outcome: Outcome,
)
    ensures
        of_phase(
            boot,
            phase(boot, Task::Host(action)),
            follow_up(input, build, action, outcome),
        ),
{
}

proof fn lemma_settle_in_order(boot: bool, start: nat, input: BuildInput, build: BuildModel)
    requires
        in_order(boot, build.todo),
        from_phase(boot, start, build.todo),
    ensures
        in_order(boot, settle(input, build).todo),
        from_phase(boot, start, settle(input, build).todo),
    decreases build.todo.len(),
{
    if build.todo.len() > 0 {
        let rest = build.todo.drop_first();
        let at = phase(boot, build.todo[0]);
        assert(in_order(boot, rest));
        assert(from_phase(boot, at, rest)) by {
            assert forall|i: int| 0 <= i < rest.len() implies at <= phase(
                boot,
                #[trigger] rest[i],
            ) by {
                assert(rest[i] == build.todo[i + 1]);
            }
        }
        assert(from_phase(boot, start, rest));
        match build.todo[0] {
            Task::Host(_) => {},
            Task::RootArguments(block) => {
                let (cmdline, err) = root_arguments(
                    build.cmdline->0,
                    input.resources.block@[block as int],
                );
                if err is None {
                    lemma_settle_in_order(
                        boot,
                        start,
                        input,
                        BuildModel { todo: rest, cmdline: Some(cmdline), ..build },
                    );
                }
            },
            Task::PlanPci => {
                lemma_phase_in_turn(
                    boot,
                    at,
                    pci_setup_plan(spec_pci_layout(build.last_addr, input.resources.layout)),
                    rest,
                );
            },
            Task::PlanLegacyDevices => {
                if let Some(text) = build.cmdline->0.text() {
                    lemma_phase_in_turn(boot, at, legacy_plan(has_console(text)), rest);
                }
            },
            Task::PlanVcpuRestore => {
                let count = restored_vcpus(
                    build.vcpus as nat,
                    input.source->Snapshot_0.vcpu_tsc_khz@.len(),
                );
                lemma_phase_in_turn(boot, at, vcpu_restore_plan(count), rest);
                lemma_settle_in_order(boot, start, input, BuildModel { todo: rest, ..build });
            },
            Task::RequireFilter(_) => {
                lemma_settle_in_order(boot, start, input, BuildModel { todo: rest, ..build });
            },
        }
    }
}

pub(crate) proof fn lemma_step_in_order(
    boot: bool,
    input: BuildInput,
    build: BuildModel,
    outcome: Outcome,
)
    requires
        is_build_of(input, build),
        build.verdict is Running,
        in_order(boot, build.todo),
    ensures
        in_order(boot, step(input, build, outcome).todo),
        from_phase(boot, phase(boot, build.todo[0]), step(input, build, outcome).todo),
{
    let action = build.todo[0]->Host_0;
    let at = phase(boot, build.todo[0]);
    let rest = build.todo.drop_first();
    if !(outcome is Failed) {
        let followed = follow_up(input, build, action, outcome);
        lemma_follow_up_phase(boot, input, build, action, outcome);
        assert forall|i: int| 0 <= i < rest.len() implies at <= phase(boot, #[trigger] rest[i]) by {
            assert(rest[i] == build.todo[i + 1]);
        }
        lemma_phase_in_turn(boot, at, followed, rest);
        lemma_settle_in_order(
            boot,
            at,
            input,
            BuildModel { todo: followed + rest, ..learn(build, outcome) },
        );
    }
}

/// A build never goes back to an earlier phase: of two actions that the host is asked for, the later
/// one is of the same phase or of a later one.
pub proof fn law_phases_in_order(
    boot: bool,
    input: BuildInput,
    build: BuildModel,
    outcomes: Seq<Outcome>,
    i: int,
    j: int,
)
    requires
        is_build_of(input, build),
        is_run(input, build, outcomes),
        in_order(boot, build.todo),
        0 <= i <= j < outcomes.len(),
    ensures
        phase(boot, Task::Host(asked(input, build, outcomes)[i])) <= phase(
            boot,
            Task::Host(asked(input, build, outcomes)[j]),
        ),
    decreases outcomes.len(),
{
    let next = step(input, build, outcomes[0]);
    let rest = outcomes.drop_first();
    let all = asked(input, build, outcomes);
    law_step_keeps_build(input, build, outcomes[0]);
    lemma_step_in_order(boot, input, build, outcomes[0]);
    law_run_keeps_build(input, build, outcomes);
    if i > 0 {
        law_phases_in_order(boot, input, next, rest, i - 1, j - 1);
        assert(all[i] == asked(input, next, rest)[i - 1]);
        assert(all[j] == asked(input, next, rest)[j - 1]);
    } else if j > 0 {
        law_phases_in_order(boot, input, next, rest, 0, j - 1);
        assert(all[j] == asked(input, next, rest)[j - 1]);
        assert(asked(input, next, rest)[0] == next.todo[0]->Host_0);
        assert(phase(boot, build.todo[0]) <= phase(boot, next.todo[0]));
    }
}

pub(crate) proof fn lemma_run_in_order(
    boot: bool,
    input: BuildInput,
    build: BuildModel,
    outcomes: Seq<Outcome>,
)
    requires
        is_build_of(input, build),
        is_run(input, build, outcomes),
        in_order(boot, build.todo),
    ensures
        in_order(boot, run(input, build, outcomes).todo),
    decreases outcomes.len(),
{
    if outcomes.len() > 0 {
        law_step_keeps_build(input, build, outcomes[0]);
        lemma_step_in_order(boot, input, build, outcomes[0]);
        lemma_run_in_order(
            boot,
            input,
            step(input, build, outcomes[0]),
            outcomes.drop_first(),
        );
    }
}

proof fn lemma_settle_plans(boot: bool, input: BuildInput, build: BuildModel, task: Task)
    requires
        build.verdict is Running,
        build.todo.contains(task),
        in_order(boot, build.todo),
    ensures
        ({
            let settled = settle(input, build);
            ||| settled.todo.contains(task)
            ||| {
                &&& holds_all(settled.todo, planned(input, settled, task))
                &&& from_phase(boot, phase(boot, task), settled.todo)
                &&& task == Task::PlanLegacyDevices ==> settled.cmdline->0.text() is Some
            }
        }),
    decreases build.todo.len(),
{
    let rest = build.todo.drop_first();
    let settled = settle(input, build);
    let first = build.todo[0];
    let at = phase(boot, first);
    let i = choose|i: int| 0 <= i < build.todo.len() && build.todo[i] == task;
    if i > 0 {
        assert(rest[i - 1] == task);
    }
    assert(in_order(boot, rest));
    assert forall|k: int| 0 <= k < rest.len() implies at <= phase(boot, #[trigger] rest[k]) by {
        assert(rest[k] == build.todo[k + 1]);
    }
    match first {
        Task::Host(_) => {},
        Task::RootArguments(block) => {
            let (cmdline, err) = root_arguments(
                build.cmdline->0,
                input.resources.block@[block as int],
            );
            let open = BuildModel { todo: rest, cmdline: Some(cmdline), ..build };
            if err is None {
                if i > 0 {
                    lemma_settle_plans(boot, input, open, task);
                } else {
                    lemma_settle_in_order(boot, at, input, open);
                }
            }
        },
        Task::PlanPci | Task::PlanLegacyDevices => {
            if settled.verdict is Running {
                let plan = planned(input, build, first);
                lemma_holds_all(plan, rest);
                lemma_settle_in_order(boot, at, input, build);
                if i > 0 {
                    assert(settled.todo[plan.len() + i - 1] == task);
                }
            }
        },
        Task::PlanVcpuRestore => {
            let plan = planned(input, build, first);
            let open = BuildModel { todo: rest, ..build };
            if plan.len() == 0 {
                lemma_settle_learns_nothing(input, open);
                if i > 0 {
                    lemma_settle_plans(boot, input, open, task);
                } else {
                    lemma_settle_in_order(boot, at, input, open);
                }
            } else {
                lemma_holds_all(plan, rest);
                lemma_settle_in_order(boot, at, input, build);
                if i > 0 {
                    assert(settled.todo[plan.len() + i - 1] == task);
                }
            }
        },
        Task::RequireFilter(category) => {
            let open = BuildModel { todo: rest, ..build };
            if is_one_of(category.spec_name(), input.seccomp_filters@) {
                if i > 0 {
                    lemma_settle_plans(boot, input, open, task);
                } else {
                    lemma_settle_in_order(boot, at, input, open);
                }
            }
        },
    }
}

/// The build has come to the phase of the task, and knows what it leads to.
pub open spec fn has_come_to(boot: bool, build: BuildModel, task: Task) -> bool {
    &&& in_order(boot, build.todo)
    &&& from_phase(boot, phase(boot, task), build.todo)
}

/// A build succeeds only after the host was asked for everything that a task of the build itself
/// led to, by what the build knew when it had come to the task.
pub proof fn law_built_did_what_was_planned(
    boot: bool,
    input: BuildInput,
    build: BuildModel,
    outcomes: Seq<Outcome>,
    task: Task,
) -> (at: int)
    requires
        is_build_of(input, build),
        build.verdict is Running,
        is_run(input, build, outcomes),
        run(input, build, outcomes).verdict is Built,
        in_order(boot, build.todo),
        build.todo.contains(task),
        !(task is Host),
    ensures
        0 <= at <= outcomes.len(),
        has_come_to(boot, run(input, build, outcomes.take(at)), task),
        task == Task::PlanLegacyDevices ==> run(
            input,
            build,
            outcomes.take(at),
        ).cmdline->0.text() is Some,
        forall|action: Action|
            planned(input, run(input, build, outcomes.take(at)), task).contains(
                Task::Host(action),
            ) ==> #[trigger] asked(input, build, outcomes).contains(action),
    decreases outcomes.len(),
{
    let next = step(input, build, outcomes[0]);
    let rest = outcomes.drop_first();
    let all = asked(input, build, outcomes);
    law_step_keeps_build(input, build, outcomes[0]);
    lemma_step_in_order(boot, input, build, outcomes[0]);
    assert(is_run(input, next, rest));
    assert(!(outcomes[0] is Failed)) by {
        if outcomes[0] is Failed {
            law_failure_ends_build(input, build, outcomes, 0);
        }
    }
    let later = build.todo.drop_first();
    let action = build.todo[0]->Host_0;
    let followed = follow_up(input, build, action, outcomes[0]);
    let open = BuildModel { todo: followed + later, ..learn(build, outcomes[0]) };
    let i = choose|i: int| 0 <= i < build.todo.len() && build.todo[i] == task;
    assert(open.todo[followed.len() + i - 1] == task);
    lemma_follow_up_phase(boot, input, build, action, outcomes[0]);
    assert forall|k: int| 0 <= k < later.len() implies phase(boot, build.todo[0]) <= phase(
        boot,
        #[trigger] later[k],
    ) by {
        assert(later[k] == build.todo[k + 1]);
    }
    lemma_phase_in_turn(boot, phase(boot, build.todo[0]), followed, later);
    lemma_settle_plans(boot, input, open, task);
    assert(all.drop_first() =~= asked(input, next, rest));
    if rest.len() == 0 {
        assert(run(input, next, rest) == next);
        lemma_settle_built(input, open);
    }
    if next.todo.contains(task) {
        let at = law_built_did_what_was_planned(boot, input, next, rest, task);
        assert(outcomes.take(at + 1).drop_first() =~= rest.take(at));
        assert forall|action: Action|
            planned(input, run(input, build, outcomes.take(at + 1)), task).contains(
                Task::Host(action),
            ) implies #[trigger] all.contains(action) by {
            assert(asked(input, next, rest).contains(action));
            let j = choose|j: int|
                0 <= j < asked(input, next, rest).len() && asked(input, next, rest)[j] == action;
            assert(all[j + 1] == action);
        }
        at + 1
    } else {
        let plan = planned(input, next, task);
        let one = outcomes.take(1);
        assert(one.drop_first() =~= seq![]);
        assert(run(input, next, one.drop_first()) == next);
        assert(run(input, build, one) == next);
        assert forall|action: Action| plan.contains(Task::Host(action)) implies #[trigger] all.contains(
            action,
        ) by {
            let k = choose|k: int| 0 <= k < plan.len() && plan[k] == Task::Host(action);
            assert(next.todo.contains(plan[k]));
            law_asked_or_left(input, next, rest, action);
            lemma_built_left_nothing(input, next, rest);
            let j = choose|j: int|
                0 <= j < asked(input, next, rest).len() && asked(input, next, rest)[j] == action;
            assert(all[j + 1] == action);
        }
        1
    }
}

/// A build that is past the creation of the vCPUs keeps their number, and what it knows of guest
/// memory.
pub proof fn law_memory_and_vcpus_stay(
    boot: bool,
    input: BuildInput,
    build: BuildModel,
    outcomes: Seq<Outcome>,
)
    requires
        is_build_of(input, build),
        is_run(input, build, outcomes),
        in_order(boot, build.todo),
    ensures
        from_phase(boot, 1, build.todo) ==> {
            &&& run(input, build, outcomes).last_addr == build.last_addr
            &&& run(input, build, outcomes).regions == build.regions
        },
        from_phase(boot, 5, build.todo) ==> run(input, build, outcomes).vcpus == build.vcpus,
    decreases outcomes.len(),
{
    if outcomes.len() > 0 {
        let next = step(input, build, outcomes[0]);
        law_step_keeps_build(input, build, outcomes[0]);
        lemma_step_in_order(boot, input, build, outcomes[0]);
        law_memory_and_vcpus_are_kept(input, build, outcomes[0]);
        if from_phase(boot, 1, build.todo) {
            assert(phase(boot, build.todo[0]) >= 1);
        }
        if from_phase(boot, 5, build.todo) {
            assert(phase(boot, build.todo[0]) >= 5);
        }
        law_memory_and_vcpus_stay(boot, input, next, outcomes.drop_first());
    }
}

/// When the host is asked for an action, it has done all the work that was planned for earlier
/// phases.
pub proof fn law_earlier_work_is_done(
    boot: bool,
    input: BuildInput,
    build: BuildModel,
    outcomes: Seq<Outcome>,
    earlier: Action,
    i: int,
)
    requires
        is_build_of(input, build),
        is_run(input, build, outcomes),
        in_order(boot, build.todo),
        build.todo.contains(Task::Host(earlier)),
        0 <= i < outcomes.len(),
        phase(boot, Task::Host(earlier)) < phase(
            boot,
            Task::Host(asked(input, build, outcomes)[i]),
        ),
    ensures
        exists|j: int|
            0 <= j < i && #[trigger] asked(input, build, outcomes)[j] == earlier
                && !(outcomes[j] is Failed),
{
    let before = outcomes.take(i);
    let all = asked(input, build, outcomes);
    lemma_run_before(input, build, outcomes, i);
    law_asked_or_left(input, build, before, earlier);
    lemma_run_in_order(boot, input, build, before);
    law_run_keeps_build(input, build, outcomes);
    let todo = run(input, build, before).todo;
    if todo.contains(Task::Host(earlier)) {
        let k = choose|k: int| 0 <= k < todo.len() && todo[k] == Task::Host(earlier);
        assert(phase(boot, todo[0]) <= phase(boot, todo[k]));
    }
    let j = choose|j: int| 0 <= j < all.take(i).len() && all.take(i)[j] == earlier;
    assert(all[j] == earlier);
    if outcomes[j] is Failed {
        law_failure_ends_build(input, build, outcomes, j);
    }
}

/// The action is the last that is left to do, and is left to do only once.
pub open spec fn only_last(action: Action, tasks: Seq<Task>) -> bool {
    &&& tasks.len() > 0
    &&& tasks.last() == Task::Host(action)
    &&& forall|i: int| 0 <= i < tasks.len() - 1 ==> #[trigger] tasks[i] != Task::Host(action)
}

/// The action is not left to do.
pub open spec fn never(action: Action, tasks: Seq<Task>) -> bool {
    forall|i: int| 0 <= i < tasks.len() ==> #[trigger] tasks[i] != Task::Host(action)
}

/// The action is left to do at most once.
pub open spec fn at_most_once(action: Action, tasks: Seq<Task>) -> bool {
    forall|i: int, j: int|
        0 <= i < j < tasks.len() ==> #[trigger] tasks[i] != Task::Host(action) || #[trigger] tasks[j]
            != Task::Host(action)
}

/// The action is one of those by which a build comes to its close: no other work leads to it.
pub open spec fn is_closing(action: Action) -> bool {
    action == Action::StartVcpus || action == Action::ApplySeccompFilter || action
        == Action::SubscribeVmm || action == Action::ResumeVm
}

/// The action is asked for only where it is planned from the beginning: no other work leads to it.
pub open spec fn is_only_planned(action: Action) -> bool {
    match action {
        Action::Vmm(action) => !(action is Pci),
        Action::Attach(_, action) => action is Subscribe || action is NextDeviceBdf
            || action is RegisterMmio,
        Action::Vfio(_, action) => action is NextDeviceId,
        Action::Legacy(_) => false,
        Action::Restore(action) => !(action is SetTsc) && !(action is RestoreVcpu),
        _ => true,
    }
}

proof fn lemma_follow_up_never(
    closing: Action,
    input: BuildInput,
    build: BuildModel,
    action: Action,
    outcome: Outcome,
)
    requires
        is_only_planned(closing),
    ensures
        never(closing, follow_up(input, build, action, outcome)),
{
}

pub(crate) proof fn lemma_never_in_turn(closing: Action, first: Seq<Task>, rest: Seq<Task>)
    requires
        never(closing, first),
    ensures
        never(closing, rest) ==> never(closing, first + rest),
        only_last(closing, rest) ==> only_last(closing, first + rest),
        at_most_once(closing, rest) ==> at_most_once(closing, first + rest),
{
    let all = first + rest;
    if at_most_once(closing, rest) {
        assert forall|i: int, j: int| 0 <= i < j < all.len() implies #[trigger] all[i]
            != Task::Host(closing) || #[trigger] all[j] != Task::Host(closing) by {
            if i >= first.len() {
                assert(all[i] == rest[i - first.len()]);
                assert(all[j] == rest[j - first.len()]);
            }
        }
    }
    if only_last(closing, rest) {
        assert forall|i: int| 0 <= i < all.len() - 1 implies #[trigger] all[i] != Task::Host(
            closing,
        ) by {
            if i >= first.len() {
                assert(all[i] == rest[i - first.len()]);
            }
        }
    }
}

/// The action is never among what a build plans without the host.
pub open spec fn is_unplanned(action: Action) -> bool {
    is_only_planned(action) || action matches Action::Restore(RestoreAction::SetTsc { .. })
}

proof fn lemma_settle_closing(closing: Action, input: BuildInput, build: BuildModel)
    requires
        is_unplanned(closing),
    ensures
        never(closing, build.todo) ==> never(closing, settle(input, build).todo),
        only_last(closing, build.todo) ==> only_last(closing, settle(input, build).todo),
        at_most_once(closing, build.todo) ==> at_most_once(closing, settle(input, build).todo),
        only_last(closing, build.todo) && build.verdict is Running ==> !(settle(
            input,
            build,
        ).verdict is Built),
    decreases build.todo.len(),
{
    if build.todo.len() > 0 {
        let rest = build.todo.drop_first();
        if !(build.todo[0] is Host) {
            assert(never(closing, build.todo) ==> never(closing, rest));
            assert(only_last(closing, build.todo) ==> only_last(closing, rest));
        }
        match build.todo[0] {
            Task::Host(_) => {},
            Task::RootArguments(block) => {
                let (cmdline, err) = root_arguments(
                    build.cmdline->0,
                    input.resources.block@[block as int],
                );
                if err is None {
                    lemma_settle_closing(
                        closing,
                        input,
                        BuildModel { todo: rest, cmdline: Some(cmdline), ..build },
                    );
                }
            },
            Task::PlanPci => {
                lemma_never_in_turn(
                    closing,
                    pci_setup_plan(spec_pci_layout(build.last_addr, input.resources.layout)),
                    rest,
                );
            },
            Task::PlanLegacyDevices => {
                if let Some(text) = build.cmdline->0.text() {
                    lemma_never_in_turn(closing, legacy_plan(has_console(text)), rest);
                }
            },
            Task::PlanVcpuRestore => {
                let count = restored_vcpus(
                    build.vcpus as nat,
                    input.source->Snapshot_0.vcpu_tsc_khz@.len(),
                );
                lemma_never_in_turn(closing, vcpu_restore_plan(count), rest);
                lemma_settle_closing(closing, input, BuildModel { todo: rest, ..build });
            },
            Task::RequireFilter(_) => {
                lemma_settle_closing(closing, input, BuildModel { todo: rest, ..build });
            },
        }
    }
}

/// An action that is only planned, and was not, is never asked for.
pub proof fn law_never_asked(
    closing: Action,
    input: BuildInput,
    build: BuildModel,
    outcomes: Seq<Outcome>,
)
    requires
        is_only_planned(closing),
        is_build_of(input, build),
        is_run(input, build, outcomes),
        never(closing, build.todo),
    ensures
        !asked(input, build, outcomes).contains(closing),
    decreases outcomes.len(),
{
    if outcomes.len() > 0 {
        let next = step(input, build, outcomes[0]);
        let rest = outcomes.drop_first();
        let action = build.todo[0]->Host_0;
        law_step_keeps_build(input, build, outcomes[0]);
        assert(build.todo[0] == Task::Host(action));
        if !(outcomes[0] is Failed) {
            let followed = follow_up(input, build, action, outcomes[0]);
            lemma_follow_up_never(closing, input, build, action, outcomes[0]);
            lemma_never_in_turn(closing, followed, build.todo.drop_first());
            lemma_settle_closing(
                closing,
                input,
                BuildModel {
                    todo: followed + build.todo.drop_first(),
                    ..learn(build, outcomes[0])
                },
            );
        }
        law_never_asked(closing, input, next, rest);
        let all = asked(input, build, outcomes);
        assert forall|i: int| 0 <= i < all.len() implies all[i] != closing by {
            if i > 0 {
                assert(all[i] == asked(input, next, rest)[i - 1]);
                assert(asked(input, next, rest).contains(asked(input, next, rest)[i - 1]));
            }
        }
    }
}

/// An action that closes a recipe is the last that the host is asked for, and a build succeeds with
/// it and not without.
pub proof fn law_closing_action_is_last(
    closing: Action,
    input: BuildInput,
    build: BuildModel,
    outcomes: Seq<Outcome>,
)
    requires
        is_closing(closing),
        is_build_of(input, build),
        build.verdict is Running,
        is_run(input, build, outcomes),
        only_last(closing, build.todo),
    ensures
        forall|i: int|
            0 <= i < outcomes.len() && #[trigger] asked(input, build, outcomes)[i] == closing ==> i
                == outcomes.len() - 1,
        run(input, build, outcomes).verdict is Built <==> outcomes.len() > 0 && asked(
            input,
            build,
            outcomes,
        ).last() == closing && !(outcomes.last() is Failed),
    decreases outcomes.len(),
{
    if outcomes.len() > 0 {
        let next = step(input, build, outcomes[0]);
        let rest = outcomes.drop_first();
        let action = build.todo[0]->Host_0;
        let later = build.todo.drop_first();
        let all = asked(input, build, outcomes);
        law_step_keeps_build(input, build, outcomes[0]);
        law_run_keeps_build(input, build, outcomes);
        assert(build.todo[0] == Task::Host(action));
        assert(is_run(input, next, rest));
        assert(all[0] == action);
        assert(forall|i: int| 0 < i < all.len() ==> #[trigger] all[i] == asked(input, next, rest)[i
            - 1]);
        if outcomes[0] is Failed {
            assert(rest.len() == 0);
            assert(run(input, next, rest) == next);
        } else {
            let followed = follow_up(input, build, action, outcomes[0]);
            let open = BuildModel { todo: followed + later, ..learn(build, outcomes[0]) };
            if action == closing {
                assert(later =~= seq![]);
                assert(followed =~= seq![]);
                assert(open.todo.len() == 0);
                assert(next.verdict is Built);
                assert(rest.len() == 0);
            } else {
                assert(only_last(closing, later));
                lemma_follow_up_never(closing, input, build, action, outcomes[0]);
                lemma_never_in_turn(closing, followed, later);
                lemma_settle_closing(closing, input, open);
                if next.verdict is Running {
                    law_closing_action_is_last(closing, input, next, rest);
                    assert(rest.len() > 0 ==> all.last() == asked(input, next, rest).last());
                } else {
                    assert(rest.len() == 0);
                    assert(run(input, next, rest) == next);
                }
            }
        }
    }
}

/// A time stamp counter is set only where the first vCPU was asked before, and said that counters
/// have to be scaled to that frequency.
pub proof fn law_counter_is_set_only_where_required(
    input: BuildInput,
    build: BuildModel,
    outcomes: Seq<Outcome>,
    vcpu: usize,
    khz: u32,
    i: int,
)
    requires
        is_build_of(input, build),
        is_run(input, build, outcomes),
        never(Action::Restore(RestoreAction::SetTsc { vcpu, khz }), build.todo),
        0 <= i < outcomes.len(),
        asked(input, build, outcomes)[i] == Action::Restore(RestoreAction::SetTsc { vcpu, khz }),
    ensures
        exists|j: int|
            0 <= j < i && #[trigger] asked(input, build, outcomes)[j] == Action::Restore(
                RestoreAction::CheckTscScaling { khz },
            ) && outcomes[j] == Outcome::TscScaling(true),
    decreases outcomes.len(),
{
    let set = Action::Restore(RestoreAction::SetTsc { vcpu, khz });
    let next = step(input, build, outcomes[0]);
    let rest = outcomes.drop_first();
    let action = build.todo[0]->Host_0;
    let later = build.todo.drop_first();
    let all = asked(input, build, outcomes);
    law_run_keeps_build(input, build, outcomes);
    law_step_keeps_build(input, build, outcomes[0]);
    assert(all[0] == action);
    assert(build.todo[0] == Task::Host(action));
    assert(is_task_of(input, build.todo[0]));
    assert(is_run(input, next, rest));
    assert(all[i] == asked(input, next, rest)[i - 1]);
    law_asked_is_allowed(input, build, outcomes, i);
    if outcomes[0] == Outcome::TscScaling(true) {
        assert(action == Action::Restore(RestoreAction::CheckTscScaling { khz }));
    } else {
        assert(!(outcomes[0] is Failed));
        let followed = follow_up(input, build, action, outcomes[0]);
        assert(never(set, followed));
        lemma_never_in_turn(set, followed, later);
        lemma_settle_closing(
            set,
            input,
            BuildModel { todo: followed + later, ..learn(build, outcomes[0]) },
        );
        law_counter_is_set_only_where_required(input, next, rest, vcpu, khz, i - 1);
        let j = choose|j: int|
            0 <= j < i - 1 && #[trigger] asked(input, next, rest)[j] == Action::Restore(
                RestoreAction::CheckTscScaling { khz },
            ) && rest[j] == Outcome::TscScaling(true);
        assert(all[j + 1] == asked(input, next, rest)[j]);
        assert(outcomes[j + 1] == rest[j]);
    }
}

/// An action that is only planned, and was once, is asked for at most once.
pub proof fn law_asked_once(
    closing: Action,
    input: BuildInput,
    build: BuildModel,
    outcomes: Seq<Outcome>,
    i: int,
    j: int,
)
    requires
        is_only_planned(closing),
        is_build_of(input, build),
        is_run(input, build, outcomes),
        at_most_once(closing, build.todo),
        0 <= i < j < outcomes.len(),
    ensures
        asked(input, build, outcomes)[i] != closing || asked(input, build, outcomes)[j] != closing,
    decreases outcomes.len(),
{
    let next = step(input, build, outcomes[0]);
    let rest = outcomes.drop_first();
    let action = build.todo[0]->Host_0;
    let later = build.todo.drop_first();
    let all = asked(input, build, outcomes);
    law_run_keeps_build(input, build, outcomes);
    law_step_keeps_build(input, build, outcomes[0]);
    assert(is_run(input, next, rest));
    assert(!(outcomes[0] is Failed));
    let followed = follow_up(input, build, action, outcomes[0]);
    assert(at_most_once(closing, later));
    lemma_follow_up_never(closing, input, build, action, outcomes[0]);
    lemma_never_in_turn(closing, followed, later);
    lemma_settle_closing(
        closing,
        input,
        BuildModel { todo: followed + later, ..learn(build, outcomes[0]) },
    );
    assert(all[j] == asked(input, next, rest)[j - 1]);
    if i > 0 {
        assert(all[i] == asked(input, next, rest)[i - 1]);
        law_asked_once(closing, input, next, rest, i - 1, j - 1);
    } else if action == closing {
        assert forall|k: int| 0 <= k < later.len() implies #[trigger] later[k] != Task::Host(
            closing,
        ) by {
            assert(later[k] == build.todo[k + 1]);
        }
        law_never_asked(closing, input, next, rest);
        assert(asked(input, next, rest).contains(asked(input, next, rest)[j - 1]));
    }
}

/// The host is asked only for work that the input allows, and reports only what that work can come
/// to.
pub proof fn law_asked_is_allowed(
    input: BuildInput,
    build: BuildModel,
    outcomes: Seq<Outcome>,
    i: int,
)
    requires
        is_build_of(input, build),
        is_run(input, build, outcomes),
        0 <= i < outcomes.len(),
    ensures
        is_task_of(input, Task::Host(asked(input, build, outcomes)[i])),
        fits(input, asked(input, build, outcomes)[i], outcomes[i]),
{
    lemma_run_before(input, build, outcomes, i);
    lemma_run_after(input, build, outcomes, i);
    assert(outcomes.skip(i)[0] == outcomes[i]);
    law_run_keeps_build(input, build, outcomes.take(i));
    assert(is_task_of(input, run(input, build, outcomes.take(i)).todo[0]));
}

proof fn lemma_settle_learns_nothing(input: BuildInput, build: BuildModel)
    ensures
        settle(input, build).regions == build.regions,
        settle(input, build).last_addr == build.last_addr,
        settle(input, build).vcpus == build.vcpus,
    decreases build.todo.len(),
{
    if build.todo.len() > 0 {
        let rest = build.todo.drop_first();
        match build.todo[0] {
            Task::RootArguments(block) => {
                let (cmdline, err) = root_arguments(
                    build.cmdline->0,
                    input.resources.block@[block as int],
                );
                lemma_settle_learns_nothing(
                    input,
                    BuildModel { todo: rest, cmdline: Some(cmdline), ..build },
                );
            },
            Task::PlanVcpuRestore | Task::RequireFilter(_) => {
                lemma_settle_learns_nothing(input, BuildModel { todo: rest, ..build });
            },
            _ => {},
        }
    }
}

/// Guest memory is what the host reported when it allocated it, and the number of vCPUs what it
/// reported when it created them: no other outcome changes them.
pub proof fn law_memory_and_vcpus_are_kept(input: BuildInput, build: BuildModel, outcome: Outcome)
    requires
        is_build_of(input, build),
        build.verdict is Running,
        fits(input, build.todo[0]->Host_0, outcome),
    ensures
        ({
            let next = step(input, build, outcome);
            &&& outcome matches Outcome::GuestMemory { last_addr, regions } ==> {
                next.last_addr == last_addr && next.regions == regions@
            }
            &&& !(outcome is GuestMemory) ==> next.last_addr == build.last_addr && next.regions
                == build.regions
            &&& outcome matches Outcome::Vcpus(count) ==> next.vcpus == count
            &&& !(outcome is Vcpus) ==> next.vcpus == build.vcpus
        }),
{
    let followed = follow_up(input, build, build.todo[0]->Host_0, outcome);
    lemma_settle_learns_nothing(
        input,
        BuildModel { todo: followed + build.todo.drop_first(), ..learn(build, outcome) },
    );
}

/// The action that puts the threads of a category under their filter.
pub open spec fn filtering_action(category: ThreadCategory) -> Action {
    match category {
        ThreadCategory::Vcpu => Action::StartVcpus,
        ThreadCategory::Vmm => Action::ApplySeccompFilter,
    }
}

/// There is a filter for the category, or its absence will be found before the filter is needed.
pub open spec fn is_guarded(input: BuildInput, category: ThreadCategory, tasks: Seq<Task>) -> bool {
    is_one_of(category.spec_name(), input.seccomp_filters@) || forall|k: int|
        0 <= k < tasks.len() && #[trigger] tasks[k] == Task::Host(filtering_action(category))
            ==> tasks.take(k).contains(Task::RequireFilter(category))
}

pub(crate) proof fn lemma_guarded_in_turn(
    input: BuildInput,
    category: ThreadCategory,
    first: Seq<Task>,
    rest: Seq<Task>,
)
    requires
        never(filtering_action(category), first),
        is_guarded(input, category, rest),
    ensures
        is_guarded(input, category, first + rest),
{
    let all = first + rest;
    let required = Task::RequireFilter(category);
    if !is_one_of(category.spec_name(), input.seccomp_filters@) {
        assert forall|k: int|
            0 <= k < all.len() && #[trigger] all[k] == Task::Host(
                filtering_action(category),
            ) implies all.take(k).contains(required) by {
            let at = k - first.len();
            assert(at >= 0);
            assert(rest[at] == all[k]);
            let before = rest.take(at);
            let j = choose|j: int| 0 <= j < before.len() && before[j] == required;
            assert(all.take(k)[j + first.len()] == required);
        }
    }
}

proof fn lemma_guarded_rest(input: BuildInput, category: ThreadCategory, tasks: Seq<Task>)
    requires
        is_guarded(input, category, tasks),
        tasks.len() > 0,
        tasks[0] == Task::RequireFilter(category) ==> is_one_of(
            category.spec_name(),
            input.seccomp_filters@,
        ),
    ensures
        is_guarded(input, category, tasks.drop_first()),
{
    let rest = tasks.drop_first();
    let required = Task::RequireFilter(category);
    if !is_one_of(category.spec_name(), input.seccomp_filters@) {
        assert forall|k: int|
            0 <= k < rest.len() && #[trigger] rest[k] == Task::Host(
                filtering_action(category),
            ) implies rest.take(k).contains(required) by {
            assert(tasks[k + 1] == rest[k]);
            let before = tasks.take(k + 1);
            let j = choose|j: int| 0 <= j < before.len() && before[j] == required;
            assert(rest.take(k)[j - 1] == required);
        }
    }
}

proof fn lemma_settle_guarded(input: BuildInput, category: ThreadCategory, build: BuildModel)
    requires
        is_guarded(input, category, build.todo),
    ensures
        is_guarded(input, category, settle(input, build).todo),
    decreases build.todo.len(),
{
    if build.todo.len() > 0 {
        let rest = build.todo.drop_first();
        if !(build.todo[0] is RequireFilter) {
            lemma_guarded_rest(input, category, build.todo);
        }
        match build.todo[0] {
            Task::Host(_) => {},
            Task::RootArguments(block) => {
                let (cmdline, err) = root_arguments(
                    build.cmdline->0,
                    input.resources.block@[block as int],
                );
                lemma_settle_guarded(
                    input,
                    category,
                    BuildModel { todo: rest, cmdline: Some(cmdline), ..build },
                );
            },
            Task::PlanPci => {
                lemma_guarded_in_turn(
                    input,
                    category,
                    pci_setup_plan(spec_pci_layout(build.last_addr, input.resources.layout)),
                    rest,
                );
            },
            Task::PlanLegacyDevices => {
                if let Some(text) = build.cmdline->0.text() {
                    lemma_guarded_in_turn(input, category, legacy_plan(has_console(text)), rest);
                }
            },
            Task::PlanVcpuRestore => {
                let count = restored_vcpus(
                    build.vcpus as nat,
                    input.source->Snapshot_0.vcpu_tsc_khz@.len(),
                );
                lemma_guarded_in_turn(input, category, vcpu_restore_plan(count), rest);
                lemma_settle_guarded(input, category, BuildModel { todo: rest, ..build });
            },
            Task::RequireFilter(required) => {
                if is_one_of(required.spec_name(), input.seccomp_filters@) {
                    lemma_guarded_rest(input, category, build.todo);
                    lemma_settle_guarded(input, category, BuildModel { todo: rest, ..build });
                }
            },
        }
    }
}

/// The threads of a category are started, or the monitor goes on, only where there is a filter for
/// them.
pub proof fn law_no_thread_without_filter(
    category: ThreadCategory,
    input: BuildInput,
    build: BuildModel,
    outcomes: Seq<Outcome>,
)
    requires
        is_build_of(input, build),
        is_run(input, build, outcomes),
        is_guarded(input, category, build.todo),
        asked(input, build, outcomes).contains(filtering_action(category)),
    ensures
        is_one_of(category.spec_name(), input.seccomp_filters@),
    decreases outcomes.len(),
{
    let all = asked(input, build, outcomes);
    let i = choose|i: int| 0 <= i < all.len() && all[i] == filtering_action(category);
    let next = step(input, build, outcomes[0]);
    let rest = outcomes.drop_first();
    let action = build.todo[0]->Host_0;
    law_step_keeps_build(input, build, outcomes[0]);
    if i == 0 {
        assert(build.todo[0] == Task::Host(filtering_action(category)));
        assert(!build.todo.take(0).contains(Task::RequireFilter(category)));
    } else {
        if !(outcomes[0] is Failed) {
            let followed = follow_up(input, build, action, outcomes[0]);
            let later = build.todo.drop_first();
            lemma_follow_up_never(filtering_action(category), input, build, action, outcomes[0]);
            lemma_guarded_rest(input, category, build.todo);
            lemma_guarded_in_turn(input, category, followed, later);
            lemma_settle_guarded(
                input,
                category,
                BuildModel { todo: followed + later, ..learn(build, outcomes[0]) },
            );
        }
        assert(all[i] == asked(input, next, rest)[i - 1]);
        law_no_thread_without_filter(category, input, next, rest);
    }
}

} // verus!
