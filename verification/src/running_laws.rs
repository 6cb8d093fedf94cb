//! Booting a machine to let it run, beside booting it to leave it paused.
use crate::builder::boot_and_run_plan;
use crate::laws::{asked, is_run, law_run_keeps_build, lemma_run_before, planned, run};
use crate::model::{
    follow_up, is_build_of, law_step_keeps_build, learn, settle, step, BuildModel, Verdict,
};
use crate::recipe::{boot_plan, restored_vcpus};
use crate::recipe_laws::{
    boot_and_run_build, boot_build, can_boot, law_machine_runs_in_the_end, lemma_boot_build,
};
use crate::resources::{is_one_of, BuildInput};
use crate::root::root_arguments;
use crate::task::{Action, Outcome, Task};
use vstd::prelude::*;

verus! {

/// The build with more work behind what it has before it.
pub open spec fn with_more(build: BuildModel, tail: Seq<Task>) -> BuildModel {
    BuildModel { todo: build.todo + tail, ..build }
}

/// Where a build with more work behind it comes to, where the build itself comes to `end`: to the
/// beginning of that work if the build succeeds, and to the same otherwise.
pub open spec fn goes_on(input: BuildInput, end: BuildModel, tail: Seq<Task>) -> BuildModel {
    if end.verdict is Built {
        settle(input, BuildModel { todo: tail, verdict: Verdict::Running, ..end })
    } else {
        with_more(end, tail)
    }
}

proof fn lemma_settle_with_more(input: BuildInput, build: BuildModel, tail: Seq<Task>)
    requires
        build.verdict is Running,
    ensures
        settle(input, with_more(build, tail)) == goes_on(input, settle(input, build), tail),
    decreases build.todo.len(),
{
    let longer = with_more(build, tail);
    if build.todo.len() == 0 {
        assert(longer.todo =~= tail);
        assert(longer == BuildModel { todo: tail, verdict: Verdict::Running, ..settle(input, build) });
    } else {
        let rest = build.todo.drop_first();
        assert(longer.todo[0] == build.todo[0]);
        assert(longer.todo.drop_first() =~= rest + tail);
        match build.todo[0] {
            Task::Host(_) => {},
            Task::RootArguments(i) => {
                let (cmdline, err) = root_arguments(
                    build.cmdline->0,
                    input.resources.block@[i as int],
                );
                if err is None {
                    lemma_settle_with_more(
                        input,
                        BuildModel { todo: rest, cmdline: Some(cmdline), ..build },
                        tail,
                    );
                }
            },
            Task::PlanPci | Task::PlanLegacyDevices => {
                let plan = planned(input, build, build.todo[0]);
                assert(plan + (rest + tail) =~= (plan + rest) + tail);
            },
            Task::PlanVcpuRestore => {
                let plan = planned(input, build, build.todo[0]);
                let count = restored_vcpus(
                    build.vcpus as nat,
                    input.source->Snapshot_0.vcpu_tsc_khz@.len(),
                );
                if count == 0 {
                    lemma_settle_with_more(input, BuildModel { todo: rest, ..build }, tail);
                } else {
                    assert(plan + (rest + tail) =~= (plan + rest) + tail);
                }
            },
            Task::RequireFilter(category) => {
                if is_one_of(category.spec_name(), input.seccomp_filters@) {
                    lemma_settle_with_more(input, BuildModel { todo: rest, ..build }, tail);
                }
            },
        }
    }
}

proof fn lemma_step_with_more(
    input: BuildInput,
    build: BuildModel,
    tail: Seq<Task>,
    outcome: Outcome,
)
    requires
        is_build_of(input, build),
        build.verdict is Running,
    ensures
        step(input, with_more(build, tail), outcome) == goes_on(
            input,
            step(input, build, outcome),
            tail,
        ),
{
    let longer = with_more(build, tail);
    let action = build.todo[0]->Host_0;
    let later = build.todo.drop_first();
    let followed = follow_up(input, build, action, outcome);
    assert(longer.todo[0] == build.todo[0]);
    assert(longer.todo.drop_first() =~= later + tail);
    assert(follow_up(input, longer, action, outcome) == followed);
    if !(outcome is Failed) {
        let open = BuildModel { todo: followed + later, ..learn(build, outcome) };
        lemma_settle_with_more(input, open, tail);
        assert(followed + (later + tail) =~= (followed + later) + tail);
    }
}

/// A build with more work behind it first does what it does without: as long as the host reports
/// what it reports there, it is asked for the same, and the build comes to the same, but that it
/// goes on where the other succeeds.
pub proof fn law_more_work_comes_after(
    input: BuildInput,
    build: BuildModel,
    tail: Seq<Task>,
    outcomes: Seq<Outcome>,
)
    requires
        is_build_of(input, build),
        build.verdict is Running,
        is_run(input, build, outcomes),
    ensures
        is_run(input, with_more(build, tail), outcomes),
        asked(input, with_more(build, tail), outcomes) == asked(input, build, outcomes),
        run(input, with_more(build, tail), outcomes) == goes_on(
            input,
            run(input, build, outcomes),
            tail,
        ),
    decreases outcomes.len(),
{
    if outcomes.len() > 0 {
        let longer = with_more(build, tail);
        let next = step(input, build, outcomes[0]);
        let rest = outcomes.drop_first();
        law_step_keeps_build(input, build, outcomes[0]);
        lemma_step_with_more(input, build, tail, outcomes[0]);
        assert(longer.todo[0] == build.todo[0]);
        assert(is_run(input, next, rest));
        if next.verdict is Running {
            law_more_work_comes_after(input, next, tail, rest);
        } else {
            let end = goes_on(input, next, tail);
            assert(rest.len() == 0);
            assert(run(input, next, rest) == next);
            assert(run(input, end, rest) == end);
            assert(asked(input, next, rest) =~= seq![]);
            assert(asked(input, end, rest) =~= seq![]);
            assert(is_run(input, end, rest));
        }
    }
}

/// What the host reports to a build with more work behind it is, up to some point, what it can report
/// to the build itself, and that point is the end or the one at which the build itself succeeds.
proof fn lemma_shorter_run(
    input: BuildInput,
    build: BuildModel,
    tail: Seq<Task>,
    outcomes: Seq<Outcome>,
) -> (n: int)
    requires
        is_build_of(input, build),
        build.verdict is Running,
        is_run(input, with_more(build, tail), outcomes),
    ensures
        0 <= n <= outcomes.len(),
        is_run(input, build, outcomes.take(n)),
        n < outcomes.len() ==> run(input, build, outcomes.take(n)).verdict is Built,
    decreases outcomes.len(),
{
    if outcomes.len() == 0 {
        assert(outcomes.take(0) =~= seq![]);
        0
    } else {
        let longer = with_more(build, tail);
        let next = step(input, build, outcomes[0]);
        let rest = outcomes.drop_first();
        assert(longer.todo[0] == build.todo[0]);
        law_step_keeps_build(input, build, outcomes[0]);
        lemma_step_with_more(input, build, tail, outcomes[0]);
        if next.verdict is Running {
            let m = lemma_shorter_run(input, next, tail, rest);
            assert(outcomes.take(m + 1).drop_first() =~= rest.take(m));
            assert(outcomes.take(m + 1)[0] == outcomes[0]);
            m + 1
        } else {
            let one = outcomes.take(1);
            assert(one.drop_first() =~= seq![]);
            assert(one[0] == outcomes[0]);
            assert(is_run(input, next, one.drop_first()));
            assert(run(input, next, one.drop_first()) == next);
            if !(next.verdict is Built) {
                assert(is_run(input, with_more(next, tail), rest));
            }
            1
        }
    }
}

/// Booting a machine to let it run is booting it to leave it paused, and then letting it run. As long
/// as the host reports what it reports there, it is asked for the same; a failure is the same; and
/// where the other succeeds, letting the machine run is all that is left.
pub proof fn law_machine_is_booted_before_it_runs(input: BuildInput, outcomes: Seq<Outcome>)
    requires
        can_boot(input),
        is_run(input, boot_build(input), outcomes),
    ensures
        is_run(input, boot_and_run_build(input), outcomes),
        asked(input, boot_and_run_build(input), outcomes) == asked(
            input,
            boot_build(input),
            outcomes,
        ),
        ({
            let paused = run(input, boot_build(input), outcomes);
            let running = run(input, boot_and_run_build(input), outcomes);
            let resume = seq![Task::Host(Action::ResumeVm)];
            running == if paused.verdict is Built {
                BuildModel { todo: resume, verdict: Verdict::Running, ..paused }
            } else {
                with_more(paused, resume)
            }
        }),
{
    let resume = seq![Task::Host(Action::ResumeVm)];
    lemma_boot_build(input);
    assert(boot_and_run_plan(input.resources) =~= boot_plan(input.resources) + resume);
    assert(boot_and_run_build(input) =~= with_more(boot_build(input), resume));
    law_more_work_comes_after(input, boot_build(input), resume, outcomes);
}

/// There is no other way of booting a machine to let it run: the host reports what it can report
/// where the machine is left paused, or that and then what came of letting it run.
pub proof fn law_machine_runs_once_booted(input: BuildInput, outcomes: Seq<Outcome>)
    requires
        can_boot(input),
        is_run(input, boot_and_run_build(input), outcomes),
    ensures
        is_run(input, boot_build(input), outcomes) || {
            &&& outcomes.len() > 0
            &&& is_run(input, boot_build(input), outcomes.drop_last())
            &&& run(input, boot_build(input), outcomes.drop_last()).verdict is Built
            &&& asked(input, boot_and_run_build(input), outcomes) == asked(
                input,
                boot_build(input),
                outcomes.drop_last(),
            ).push(Action::ResumeVm)
        },
{
    let resume = seq![Task::Host(Action::ResumeVm)];
    let build = boot_and_run_build(input);
    lemma_boot_build(input);
    assert(boot_and_run_plan(input.resources) =~= boot_plan(input.resources) + resume);
    assert(build =~= with_more(boot_build(input), resume));
    let n = lemma_shorter_run(input, boot_build(input), resume, outcomes);
    if n == outcomes.len() {
        assert(outcomes.take(n) =~= outcomes);
    } else {
        let all = asked(input, build, outcomes);
        law_machine_is_booted_before_it_runs(input, outcomes.take(n));
        lemma_run_before(input, build, outcomes, n);
        law_run_keeps_build(input, build, outcomes);
        law_machine_runs_in_the_end(input, outcomes);
        assert(all[n] == Action::ResumeVm);
        assert(outcomes.take(n) =~= outcomes.drop_last());
        assert(all =~= all.take(n).push(Action::ResumeVm));
    }
}

} // verus!
