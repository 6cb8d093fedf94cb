//! Which seccomp filter is missed.
use crate::cmdline_laws::boots;
use crate::laws::{
    asked, filtering_action, in_order, is_guarded, is_run, law_asked_or_left,
    law_build_fails_for_a_reason, law_built_did_everything, law_no_thread_without_filter,
    lemma_run_in_order, phase, run,
};
use crate::model::{
    follow_up, is_build_of, law_step_keeps_build, learn, settle, step, BuildModel, Verdict,
};
use crate::recipe_laws::{
    can_restore, law_boot_is_in_order, law_restoration_is_in_order, lemma_boot_build,
    lemma_boot_guarded, lemma_boot_is_closed, lemma_snapshot_guarded, lemma_snapshot_is_closed,
    snapshot_build,
};
use crate::resources::{is_one_of, BuildInput, ThreadCategory};
use crate::root::root_arguments;
use crate::task::{Action, Outcome, Task};
use vstd::prelude::*;

verus! {

/// There is a filter for the threads of the category.
pub open spec fn is_filtered(input: BuildInput, category: ThreadCategory) -> bool {
    is_one_of(category.spec_name(), input.seccomp_filters@)
}

proof fn lemma_settle_missing(input: BuildInput, build: BuildModel)
    requires
        build.verdict is Running,
    ensures
        settle(input, build).verdict matches Verdict::MissingFilter(category) ==> {
            &&& settle(input, build).todo.len() > 0
            &&& settle(input, build).todo[0] == Task::RequireFilter(category)
        },
    decreases build.todo.len(),
{
    if build.todo.len() > 0 {
        let rest = build.todo.drop_first();
        match build.todo[0] {
            Task::RootArguments(i) => {
                let (cmdline, err) = root_arguments(
                    build.cmdline->0,
                    input.resources.block@[i as int],
                );
                lemma_settle_missing(
                    input,
                    BuildModel { todo: rest, cmdline: Some(cmdline), ..build },
                );
            },
            Task::PlanVcpuRestore | Task::RequireFilter(_) => {
                lemma_settle_missing(input, BuildModel { todo: rest, ..build });
            },
            _ => {},
        }
    }
}

/// A build that misses a filter stands at the task that looks for it.
proof fn lemma_run_missing(input: BuildInput, build: BuildModel, outcomes: Seq<Outcome>)
    requires
        is_build_of(input, build),
        build.verdict is Running,
        is_run(input, build, outcomes),
    ensures
        run(input, build, outcomes).verdict matches Verdict::MissingFilter(category) ==> {
            &&& run(input, build, outcomes).todo.len() > 0
            &&& run(input, build, outcomes).todo[0] == Task::RequireFilter(category)
        },
    decreases outcomes.len(),
{
    if outcomes.len() > 0 {
        let next = step(input, build, outcomes[0]);
        let rest = outcomes.drop_first();
        law_step_keeps_build(input, build, outcomes[0]);
        assert(is_run(input, next, rest));
        if !(outcomes[0] is Failed) {
            let followed = follow_up(input, build, build.todo[0]->Host_0, outcomes[0]);
            lemma_settle_missing(
                input,
                BuildModel {
                    todo: followed + build.todo.drop_first(),
                    ..learn(build, outcomes[0])
                },
            );
        }
        if next.verdict is Running {
            lemma_run_missing(input, next, rest);
        } else {
            assert(rest.len() == 0);
            assert(run(input, next, rest) == next);
        }
    }
}

/// The build has ended, and neither the host nor the command line is to blame if it failed.
pub open spec fn ends_by_itself(verdict: Verdict) -> bool {
    verdict is Built || verdict is MissingFilter
}

/// What the filters alone make of a build: it misses the one for vCPUs if that is not there, whether
/// or not the other is; it misses the one for the monitor if only that is not there; and it succeeds
/// if both are.
pub open spec fn verdict_by_filters(input: BuildInput) -> Verdict {
    if !is_filtered(input, ThreadCategory::Vcpu) {
        Verdict::MissingFilter(ThreadCategory::Vcpu)
    } else if !is_filtered(input, ThreadCategory::Vmm) {
        Verdict::MissingFilter(ThreadCategory::Vmm)
    } else {
        Verdict::Built
    }
}

/// A build that is to start vCPUs and then to apply the filter of the monitor ends as the filters
/// alone make it, where neither the host nor the command line is to blame.
pub proof fn law_filters_decide(
    boot: bool,
    input: BuildInput,
    build: BuildModel,
    outcomes: Seq<Outcome>,
)
    requires
        is_build_of(input, build),
        build.verdict is Running,
        is_run(input, build, outcomes),
        in_order(boot, build.todo),
        build.todo.contains(Task::Host(Action::StartVcpus)),
        build.todo.contains(Task::Host(Action::ApplySeccompFilter)),
        is_guarded(input, ThreadCategory::Vcpu, build.todo),
        is_guarded(input, ThreadCategory::Vmm, build.todo),
        ends_by_itself(run(input, build, outcomes).verdict),
    ensures
        run(input, build, outcomes).verdict == verdict_by_filters(input),
{
    let end = run(input, build, outcomes);
    let start = Action::StartVcpus;
    let all = asked(input, build, outcomes);
    law_build_fails_for_a_reason(input, build, outcomes);
    lemma_run_missing(input, build, outcomes);
    lemma_run_in_order(boot, input, build, outcomes);
    law_asked_or_left(input, build, outcomes, start);
    if end.verdict is Built {
        law_built_did_everything(input, build, outcomes, start);
        law_built_did_everything(input, build, outcomes, Action::ApplySeccompFilter);
        assert(all.contains(filtering_action(ThreadCategory::Vcpu)));
        assert(all.contains(filtering_action(ThreadCategory::Vmm)));
        law_no_thread_without_filter(ThreadCategory::Vcpu, input, build, outcomes);
        law_no_thread_without_filter(ThreadCategory::Vmm, input, build, outcomes);
    } else if end.verdict == Verdict::MissingFilter(ThreadCategory::Vmm) {
        if end.todo.contains(Task::Host(start)) {
            let k = choose|k: int| 0 <= k < end.todo.len() && end.todo[k] == Task::Host(start);
            assert(phase(boot, end.todo[0]) <= phase(boot, end.todo[k]));
        }
        assert(all.contains(filtering_action(ThreadCategory::Vcpu)));
        law_no_thread_without_filter(ThreadCategory::Vcpu, input, build, outcomes);
    }
}

/// Booting a machine ends as the filters alone make it, where neither the host nor the command line is
/// to blame.
pub proof fn law_filters_decide_boot(input: BuildInput, build: BuildModel, outcomes: Seq<Outcome>)
    requires
        boots(input, build),
        is_run(input, build, outcomes),
        ends_by_itself(run(input, build, outcomes).verdict),
    ensures
        run(input, build, outcomes).verdict == verdict_by_filters(input),
{
    law_boot_is_in_order(input);
    lemma_boot_build(input);
    lemma_boot_is_closed(input);
    lemma_boot_guarded(ThreadCategory::Vcpu, input);
    lemma_boot_guarded(ThreadCategory::Vmm, input);
    law_filters_decide(true, input, build, outcomes);
}

/// Restoring a machine ends as the filters alone make it, where the host is not to blame.
pub proof fn law_filters_decide_restoration(input: BuildInput, outcomes: Seq<Outcome>)
    requires
        can_restore(input),
        is_run(input, snapshot_build(input), outcomes),
        !(run(input, snapshot_build(input), outcomes).verdict is Running),
        !(run(input, snapshot_build(input), outcomes).verdict is HostFailed),
    ensures
        run(input, snapshot_build(input), outcomes).verdict == verdict_by_filters(input),
{
    law_restoration_is_in_order(input);
    lemma_snapshot_is_closed(input);
    lemma_snapshot_guarded(ThreadCategory::Vcpu, input);
    lemma_snapshot_guarded(ThreadCategory::Vmm, input);
    law_build_fails_for_a_reason(input, snapshot_build(input), outcomes);
    law_filters_decide(false, input, snapshot_build(input), outcomes);
}

} // verus!
