//! What a build makes of what the host reports of guest memory and of the vCPUs.
use crate::laws::{
    asked, is_run, law_asked_is_allowed, law_asked_once, law_memory_and_vcpus_are_kept,
    law_run_keeps_build, lemma_run_after, run,
};
use crate::machine_laws::{
    law_boot_is_as_configured, law_restoration_is_as_saved, lemma_boot_holds,
    lemma_restoration_holds,
};
use crate::model::{is_build_of, law_step_keeps_build, step, BuildModel};
use crate::recipe_laws::{
    boot_and_run_build, boot_build, can_boot, can_restore, law_boot_is_in_order,
    law_restoration_is_in_order, lemma_boot_build, lemma_snapshot_build, snapshot_build,
};
use crate::resources::BuildInput;
use crate::task::{Action, Outcome, VmmAction};
use vstd::prelude::*;

verus! {

/// As long as the host reports nothing of them, guest memory and the number of vCPUs are what they were.
pub proof fn law_nothing_is_made_up(input: BuildInput, build: BuildModel, outcomes: Seq<Outcome>)
    requires
        is_build_of(input, build),
        is_run(input, build, outcomes),
    ensures
        (forall|j: int| 0 <= j < outcomes.len() ==> !(#[trigger] outcomes[j] is GuestMemory)) ==> {
            &&& run(input, build, outcomes).last_addr == build.last_addr
            &&& run(input, build, outcomes).regions == build.regions
        },
        (forall|j: int| 0 <= j < outcomes.len() ==> !(#[trigger] outcomes[j] is Vcpus)) ==> run(
            input,
            build,
            outcomes,
        ).vcpus == build.vcpus,
    decreases outcomes.len(),
{
    if outcomes.len() > 0 {
        let rest = outcomes.drop_first();
        law_step_keeps_build(input, build, outcomes[0]);
        law_memory_and_vcpus_are_kept(input, build, outcomes[0]);
        law_nothing_is_made_up(input, step(input, build, outcomes[0]), rest);
        if forall|j: int| 0 <= j < outcomes.len() ==> !(#[trigger] outcomes[j] is GuestMemory) {
            assert forall|j: int| 0 <= j < rest.len() implies !(#[trigger] rest[j] is GuestMemory) by {
                assert(rest[j] == outcomes[j + 1]);
            }
        }
        if forall|j: int| 0 <= j < outcomes.len() ==> !(#[trigger] outcomes[j] is Vcpus) {
            assert forall|j: int| 0 <= j < rest.len() implies !(#[trigger] rest[j] is Vcpus) by {
                assert(rest[j] == outcomes[j + 1]);
            }
        }
    }
}

/// What the host reports last of guest memory, or of the vCPUs, is what the build goes by.
pub proof fn law_last_report_counts(
    input: BuildInput,
    build: BuildModel,
    outcomes: Seq<Outcome>,
    i: int,
)
    requires
        is_build_of(input, build),
        is_run(input, build, outcomes),
        0 <= i < outcomes.len(),
    ensures
        (forall|j: int| i < j < outcomes.len() ==> !(#[trigger] outcomes[j] is GuestMemory)) ==> (
        outcomes[i] matches Outcome::GuestMemory { last_addr, regions } ==> {
            &&& run(input, build, outcomes).last_addr == last_addr
            &&& run(input, build, outcomes).regions == regions@
        }),
        (forall|j: int| i < j < outcomes.len() ==> !(#[trigger] outcomes[j] is Vcpus)) ==> (
        outcomes[i] matches Outcome::Vcpus(count) ==> run(input, build, outcomes).vcpus == count),
{
    let now = run(input, build, outcomes.take(i));
    let later = outcomes.skip(i);
    let next = step(input, now, outcomes[i]);
    let rest = later.drop_first();
    lemma_run_after(input, build, outcomes, i);
    assert(later[0] == outcomes[i]);
    law_step_keeps_build(input, now, outcomes[i]);
    law_memory_and_vcpus_are_kept(input, now, outcomes[i]);
    law_nothing_is_made_up(input, next, rest);
    assert(run(input, build, outcomes) == run(input, next, rest));
    if forall|j: int| i < j < outcomes.len() ==> !(#[trigger] outcomes[j] is GuestMemory) {
        assert forall|j: int| 0 <= j < rest.len() implies !(#[trigger] rest[j] is GuestMemory) by {
            assert(rest[j] == outcomes[i + 1 + j]);
        }
    }
    if forall|j: int| i < j < outcomes.len() ==> !(#[trigger] outcomes[j] is Vcpus) {
        assert forall|j: int| 0 <= j < rest.len() implies !(#[trigger] rest[j] is Vcpus) by {
            assert(rest[j] == outcomes[i + 1 + j]);
        }
    }
}

/// Guest memory of a machine that boots is what the host reports when it is asked to allocate it, and
/// there are as many vCPUs as the host reports when it is asked to create them.
pub proof fn law_boot_goes_by_reports(
    input: BuildInput,
    build: BuildModel,
    outcomes: Seq<Outcome>,
    i: int,
)
    requires
        can_boot(input),
        build == boot_build(input) || build == boot_and_run_build(input),
        is_run(input, build, outcomes),
        0 <= i < outcomes.len(),
    ensures
        outcomes[i] matches Outcome::GuestMemory { last_addr, regions } ==> {
            &&& asked(input, build, outcomes)[i] == Action::AllocateGuestMemory
            &&& run(input, build, outcomes).last_addr == last_addr
            &&& run(input, build, outcomes).regions == regions@
        },
        outcomes[i] matches Outcome::Vcpus(count) ==> {
            &&& asked(input, build, outcomes)[i] == Action::Vmm(
                VmmAction::CreateVcpus { count: input.resources.vcpu_count },
            )
            &&& run(input, build, outcomes).vcpus == count
        },
{
    let create = Action::Vmm(VmmAction::CreateVcpus { count: input.resources.vcpu_count });
    lemma_boot_build(input);
    law_boot_is_in_order(input);
    lemma_boot_holds(input.resources, Action::AllocateGuestMemory);
    law_asked_is_allowed(input, build, outcomes, i);
    law_last_report_counts(input, build, outcomes, i);
    assert forall|j: int| 0 <= j < outcomes.len() && outcomes[j] is Vcpus implies #[trigger] asked(
        input,
        build,
        outcomes,
    )[j] == create by {
        lemma_vcpus_of_boot(input, build, outcomes, j);
    }
    if outcomes[i] is GuestMemory {
        assert forall|j: int| i < j < outcomes.len() implies !(#[trigger] outcomes[j] is GuestMemory) by {
            law_asked_is_allowed(input, build, outcomes, j);
            law_asked_once(Action::AllocateGuestMemory, input, build, outcomes, i, j);
        }
    }
    if outcomes[i] is Vcpus {
        lemma_boot_holds(input.resources, create);
        assert forall|j: int| i < j < outcomes.len() implies !(#[trigger] outcomes[j] is Vcpus) by {
            law_asked_once(create, input, build, outcomes, i, j);
            assert(asked(input, build, outcomes)[i] == create);
            if outcomes[j] is Vcpus {
                assert(asked(input, build, outcomes)[j] == create);
            }
        }
    }
}

proof fn lemma_vcpus_of_boot(input: BuildInput, build: BuildModel, outcomes: Seq<Outcome>, j: int)
    requires
        can_boot(input),
        build == boot_build(input) || build == boot_and_run_build(input),
        is_run(input, build, outcomes),
        0 <= j < outcomes.len(),
        outcomes[j] is Vcpus,
    ensures
        asked(input, build, outcomes)[j] == Action::Vmm(
            VmmAction::CreateVcpus { count: input.resources.vcpu_count },
        ),
{
    let action = asked(input, build, outcomes)[j];
    lemma_boot_build(input);
    law_boot_is_in_order(input);
    law_asked_is_allowed(input, build, outcomes, j);
    law_run_keeps_build(input, build, outcomes);
    law_boot_is_as_configured(input, build, outcomes, build == boot_and_run_build(input), action);
    assert(asked(input, build, outcomes).contains(action));
}

/// Guest memory of a restored machine is that of the snapshot, whatever the host reports, and there are
/// as many vCPUs as the host reports when it is asked to create them.
pub proof fn law_restoration_goes_by_snapshot_and_reports(
    input: BuildInput,
    outcomes: Seq<Outcome>,
    i: int,
)
    requires
        can_restore(input),
        is_run(input, snapshot_build(input), outcomes),
    ensures
        run(input, snapshot_build(input), outcomes).last_addr
            == input.source->Snapshot_0.last_addr,
        run(input, snapshot_build(input), outcomes).regions == input.source->Snapshot_0.regions@,
        0 <= i < outcomes.len() ==> (outcomes[i] matches Outcome::Vcpus(count) ==> {
            &&& asked(input, snapshot_build(input), outcomes)[i] == Action::Vmm(
                VmmAction::CreateVcpus { count: input.resources.vcpu_count },
            )
            &&& run(input, snapshot_build(input), outcomes).vcpus == count
        }),
{
    let build = snapshot_build(input);
    let all = asked(input, build, outcomes);
    let create = Action::Vmm(VmmAction::CreateVcpus { count: input.resources.vcpu_count });
    lemma_snapshot_build(input);
    law_restoration_is_in_order(input);
    law_run_keeps_build(input, build, outcomes);
    assert forall|j: int| 0 <= j < outcomes.len() implies !(#[trigger] outcomes[j] is GuestMemory)
        && (outcomes[j] is Vcpus ==> all[j] == create) by {
        law_asked_is_allowed(input, build, outcomes, j);
        assert(all.contains(all[j]));
        if outcomes[j] is GuestMemory || outcomes[j] is Vcpus {
            law_restoration_is_as_saved(input, outcomes, all[j]);
        }
    }
    law_nothing_is_made_up(input, build, outcomes);
    if 0 <= i < outcomes.len() && outcomes[i] is Vcpus {
        law_last_report_counts(input, build, outcomes, i);
        lemma_restoration_holds(input.resources, input.source->Snapshot_0, create);
        assert forall|j: int| i < j < outcomes.len() implies !(#[trigger] outcomes[j] is Vcpus) by {
            law_asked_once(create, input, build, outcomes, i, j);
        }
    }
}

} // verus!
