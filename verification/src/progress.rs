//! Every build comes to an end.
use crate::laws::is_run;
use crate::layout::spec_pci_layout;
use crate::model::{
    follow_up, has_console, is_build_of, law_step_keeps_build, learn, settle, step, BuildModel,
};
use crate::pci::{bars_plan, mapping_plan};
use crate::recipe::{restored_vcpus, vcpu_restore_plan};
use crate::resources::{Arch, BuildInput};
use crate::root::root_arguments;
use crate::task::{
    Action, AttachAction, Outcome, PciAction, PciBarConfiguration, RestoreAction, Task, VfioAction,
};
use crate::vmm::{legacy_plan, pci_setup_plan};
use vstd::prelude::*;

verus! {

/// How often work can lead to more work, starting with the task.
pub open spec fn level(task: Task) -> nat {
    match task {
        Task::PlanPci | Task::PlanLegacyDevices | Task::PlanVcpuRestore => 2,
        Task::Host(action) => match action {
            Action::Attach(_, AttachAction::NextDeviceBdf) => 2,
            Action::Attach(_, AttachAction::Pci(PciAction::AllocateBars { .. })) => 1,
            Action::Attach(_, AttachAction::ConfigBarAddress) => 1,
            Action::Vfio(_, VfioAction::NextDeviceId) => 2,
            Action::Vfio(_, VfioAction::Pci(PciAction::AllocateBars { .. })) => 1,
            Action::Restore(RestoreAction::CheckTscScaling { .. }) => 2,
            _ => 0,
        },
        _ => 0,
    }
}

/// The number of tasks of the level.
pub open spec fn count(at: nat, tasks: Seq<Task>) -> nat
    decreases tasks.len(),
{
    if tasks.len() == 0 {
        0
    } else {
        count(at, tasks.drop_first()) + if level(tasks[0]) == at {
            1nat
        } else {
            0nat
        }
    }
}

/// All tasks are below the level.
pub open spec fn below(end: nat, tasks: Seq<Task>) -> bool {
    forall|i: int| 0 <= i < tasks.len() ==> level(#[trigger] tasks[i]) < end
}

/// There is less left to do: fewer tasks of the highest level, or as many of that and fewer of the
/// level below, or as many of both and fewer in all.
pub open spec fn is_less(fewer: Seq<Task>, tasks: Seq<Task>) -> bool {
    ||| count(2, fewer) < count(2, tasks)
    ||| count(2, fewer) == count(2, tasks) && count(1, fewer) < count(1, tasks)
    ||| count(2, fewer) == count(2, tasks) && count(1, fewer) == count(1, tasks) && fewer.len()
        < tasks.len()
}

proof fn lemma_count_in_turn(at: nat, first: Seq<Task>, rest: Seq<Task>)
    ensures
        count(at, first + rest) == count(at, first) + count(at, rest),
    decreases first.len(),
{
    if first.len() == 0 {
        assert(first + rest =~= rest);
    } else {
        lemma_count_in_turn(at, first.drop_first(), rest);
        assert((first + rest).drop_first() =~= first.drop_first() + rest);
    }
}

proof fn lemma_count_below(at: nat, tasks: Seq<Task>)
    requires
        below(at, tasks),
    ensures
        count(at, tasks) == 0,
    decreases tasks.len(),
{
    if tasks.len() > 0 {
        assert(below(at, tasks.drop_first()));
        lemma_count_below(at, tasks.drop_first());
    }
}

/// Tasks below the level of the one whose place they take leave less to do.
proof fn lemma_replaced(task: Task, by: Seq<Task>, rest: Seq<Task>)
    requires
        below(level(task), by),
        level(task) <= 2,
    ensures
        is_less(by + rest, seq![task] + rest),
{
    let tasks = seq![task] + rest;
    assert(tasks.drop_first() =~= rest);
    lemma_count_in_turn(2, by, rest);
    lemma_count_in_turn(1, by, rest);
    if level(task) >= 1 {
        assert(below(2, by));
        lemma_count_below(2, by);
        if level(task) == 1 {
            lemma_count_below(1, by);
        }
    } else {
        assert(by =~= seq![]);
        assert(by + rest =~= rest);
    }
}

proof fn lemma_mapping_below(arch: Arch, bars: Seq<PciBarConfiguration>, i: int)
    requires
        0 <= i < mapping_plan(arch, bars).len(),
    ensures
        !(mapping_plan(arch, bars)[i] is AllocateBars),
    decreases bars.len(),
{
    if bars.len() > 0 {
        if i < mapping_plan(arch, bars.drop_last()).len() {
            lemma_mapping_below(arch, bars.drop_last(), i);
        }
    }
}

pub(crate) proof fn lemma_bars_below(arch: Arch, slot: u32, bars: Seq<PciBarConfiguration>)
    ensures
        forall|i: int|
            0 <= i < bars_plan(arch, slot, bars).len() ==> !(#[trigger] bars_plan(
                arch,
                slot,
                bars,
            )[i] is AllocateBars),
{
    let plan = bars_plan(arch, slot, bars);
    assert forall|i: int| 0 <= i < plan.len() implies !(#[trigger] plan[i] is AllocateBars) by {
        if i > 0 {
            lemma_mapping_below(arch, bars, i - 1);
        }
    }
}

proof fn lemma_follow_up_below(
    input: BuildInput,
    build: BuildModel,
    action: Action,
    outcome: Outcome,
)
    ensures
        below(level(Task::Host(action)), follow_up(input, build, action, outcome)),
{
    match (action, outcome) {
        (
            Action::Attach(_, AttachAction::Pci(PciAction::AllocateBars { device: slot })),
            Outcome::Bars(bars),
        ) => {
            lemma_bars_below(input.resources.arch, slot, bars@);
        },
        (
            Action::Vfio(_, VfioAction::Pci(PciAction::AllocateBars { device: slot })),
            Outcome::Bars(bars),
        ) => {
            lemma_bars_below(input.resources.arch, slot, bars@);
        },
        _ => {},
    }
}

proof fn lemma_settle_less(input: BuildInput, build: BuildModel)
    ensures
        settle(input, build).todo == build.todo || is_less(settle(input, build).todo, build.todo),
    decreases build.todo.len(),
{
    if build.todo.len() > 0 {
        let rest = build.todo.drop_first();
        let first = build.todo[0];
        assert(build.todo =~= seq![first] + rest);
        assert(seq![] + rest =~= rest);
        match first {
            Task::Host(_) => {},
            Task::RootArguments(block) => {
                let (cmdline, err) = root_arguments(
                    build.cmdline->0,
                    input.resources.block@[block as int],
                );
                lemma_replaced(first, seq![], rest);
                lemma_settle_less(
                    input,
                    BuildModel { todo: rest, cmdline: Some(cmdline), ..build },
                );
            },
            Task::PlanPci => {
                lemma_replaced(
                    first,
                    pci_setup_plan(spec_pci_layout(build.last_addr, input.resources.layout)),
                    rest,
                );
            },
            Task::PlanLegacyDevices => {
                if let Some(text) = build.cmdline->0.text() {
                    lemma_replaced(first, legacy_plan(has_console(text)), rest);
                }
            },
            Task::PlanVcpuRestore => {
                let count = restored_vcpus(
                    build.vcpus as nat,
                    input.source->Snapshot_0.vcpu_tsc_khz@.len(),
                );
                lemma_replaced(first, vcpu_restore_plan(count), rest);
                lemma_replaced(first, seq![], rest);
                lemma_settle_less(input, BuildModel { todo: rest, ..build });
            },
            Task::RequireFilter(_) => {
                lemma_replaced(first, seq![], rest);
                lemma_settle_less(input, BuildModel { todo: rest, ..build });
            },
        }
    }
}

/// Each outcome ends the build or leaves less to do.
pub proof fn law_step_leaves_less(input: BuildInput, build: BuildModel, outcome: Outcome)
    requires
        is_build_of(input, build),
        build.verdict is Running,
    ensures
        step(input, build, outcome).verdict is Running ==> is_less(
            step(input, build, outcome).todo,
            build.todo,
        ),
{
    let action = build.todo[0]->Host_0;
    let rest = build.todo.drop_first();
    if !(outcome is Failed) {
        let followed = follow_up(input, build, action, outcome);
        assert(build.todo =~= seq![build.todo[0]] + rest);
        lemma_follow_up_below(input, build, action, outcome);
        lemma_replaced(build.todo[0], followed, rest);
        lemma_settle_less(
            input,
            BuildModel { todo: followed + rest, ..learn(build, outcome) },
        );
    }
}

/// The first `n` outcomes that a host reports.
pub open spec fn reports(host: spec_fn(nat) -> Outcome, n: nat) -> Seq<Outcome> {
    Seq::new(n, |i: int| host(i as nat))
}

/// No host can keep a build going for ever, whatever it reports.
pub proof fn law_every_build_ends(
    input: BuildInput,
    build: BuildModel,
    host: spec_fn(nat) -> Outcome,
)
    requires
        is_build_of(input, build),
    ensures
        exists|n: nat| !is_run(input, build, #[trigger] reports(host, n)),
    decreases count(2, build.todo), count(1, build.todo), build.todo.len(),
{
    let one = reports(host, 1);
    if is_run(input, build, one) {
        let next = step(input, build, host(0));
        let later = |i: nat| host((i + 1) as nat);
        assert(one[0] == host(0));
        law_step_keeps_build(input, build, host(0));
        law_step_leaves_less(input, build, host(0));
        if next.verdict is Running {
            law_every_build_ends(input, next, later);
            let n = choose|n: nat| !is_run(input, next, #[trigger] reports(later, n));
            let all = reports(host, n + 1);
            assert(all.drop_first() =~= reports(later, n));
            assert(!is_run(input, build, all));
        } else {
            let two = reports(host, 2);
            assert(!is_run(input, next, two.drop_first()));
            assert(!is_run(input, build, two));
        }
    }
}

} // verus!
