//! Building a microVM step by step: the build says what the host has to do next and is told what
//! came of it.
use crate::cmdline::{clone_cmdline, cmdline_text, error_text, model, str_contains};
use crate::error::{BuildMicrovmFromSnapshotError, StartMicrovmError, VmmError};
use crate::failure::{may_fail, snapshot_error, snapshot_failure, start_error, start_failure};
use crate::layout::{has_device_area, leaves_device_area};
use crate::model::{
    are_tasks_of, asks_first_vcpu, begin, can_begin, fits, follow_up, has_first_state, is_build_of, is_task_of,
    law_step_keeps_build, lemma_begin, lemma_boot_plan, lemma_boot_prepared, lemma_follow_up, lemma_snapshot_plan,
    settle, step, tells_nothing, BuildModel, Verdict,
};
use crate::pci::add_allocated_device;
use crate::recipe::{
    boot_plan, plan_boot, plan_snapshot, restore_vcpus, scale_tsc, snapshot_plan,
};
use crate::resources::{
    has_filter, Arch, BuildInput, MemoryRegion, SnapshotInfo, Source, ThreadCategory, VmResources,
};
use crate::root::insert_root_arguments;
use crate::task::{
    Action, AttachAction, LegacyAction, Outcome, PciAction, RestoreAction, Task, VfioAction,
    VmmAction,
};
use crate::vfio::{add_vfio_device, vfio_pci_tasks};
use crate::virtio::{
    are_notify_addresses, attach_at_bdf, attach_pci_tasks, register_notifications,
};
use crate::vmm::{attach_legacy_devices_aarch64, setup_pci};
use linux_loader::cmdline::Cmdline;
use linux_loader::cmdline::Error as CmdlineError;
use vstd::prelude::*;

verus! {

/// Whether the action is done without telling anything.
fn is_silent(action: Action) -> (silent: bool)
    ensures
        silent == tells_nothing(action),
{
    match action {
        Action::AllocateGuestMemory => false,
        Action::Vmm(VmmAction::CreateVcpus { .. }) => false,
        Action::Attach(_, action) => match action {
            AttachAction::NextDeviceBdf
            | AttachAction::ConfigBarAddress
            | AttachAction::RegisterMmio { .. }
            | AttachAction::Pci(PciAction::AllocateBars { .. }) => false,
            _ => true,
        },
        Action::Vfio(_, action) => match action {
            VfioAction::NextDeviceId | VfioAction::Pci(PciAction::AllocateBars { .. }) => false,
            _ => true,
        },
        Action::Legacy(LegacyAction::AddSerialToCmdline) => false,
        Action::Restore(RestoreAction::CheckTscScaling { .. }) => false,
        _ => true,
    }
}

/// Whether the build will have to ask the first vCPU about its time stamp counter.
fn needs_first_vcpu(input: &BuildInput) -> (needed: bool)
    ensures
        needed == asks_first_vcpu(*input),
{
    match (&input.source, input.resources.arch) {
        (Source::Snapshot(snapshot), Arch::X86_64) => snapshot.vcpu_tsc_khz.len() > 0
            && snapshot.vcpu_tsc_khz[0].is_some(),
        _ => false,
    }
}

/// Whether there is a saved vCPU to read the time stamp counter of, where a machine is restored.
fn keeps_first_state(input: &BuildInput) -> (kept: bool)
    ensures
        kept == has_first_state(*input),
{
    match (&input.source, input.resources.arch) {
        (Source::Snapshot(snapshot), Arch::X86_64) => snapshot.vcpu_tsc_khz.len() > 0,
        _ => true,
    }
}

/// A microVM that is being built.
pub struct Build {
    input: BuildInput,
    todo: Vec<Task>,
    cmdline: Option<Cmdline>,
    last_addr: u64,
    regions: Vec<MemoryRegion>,
    vcpus: usize,
    verdict: Verdict,
}

impl View for Build {
    type V = BuildModel;

    closed spec fn view(&self) -> BuildModel {
        BuildModel {
            todo: self.todo@,
            cmdline: match self.cmdline {
                Some(cmdline) => Some(model(cmdline)),
                None => None,
            },
            last_addr: self.last_addr,
            regions: self.regions@,
            vcpus: self.vcpus,
            verdict: self.verdict,
        }
    }
}

impl Build {
    /// What the microVM is built from.
    pub closed spec fn spec_input(self) -> BuildInput {
        self.input
    }

    /// What always holds of a build.
    pub open spec fn wf(self) -> bool {
        is_build_of(self.spec_input(), self@)
    }

    /// Takes the first task off and puts `tasks` in front of the others.
    fn replace_first(&mut self, tasks: Vec<Task>)
        requires
            old(self).todo@.len() > 0,
        ensures
            final(self)@ == (BuildModel {
                todo: tasks@ + old(self)@.todo.drop_first(),
                ..old(self)@
            }),
            final(self).spec_input() == old(self).spec_input(),
    {
        let mut tasks: Vec<Task> = tasks;
        let ghost planned = tasks@;
        let _ = self.todo.remove(0);
        assert(self.todo@ =~= old(self).todo@.drop_first());
        tasks.append(&mut self.todo);
        self.todo = tasks;
        assert(self@.todo =~= planned + old(self)@.todo.drop_first());
    }

    /// Does what can be done without the host.
    fn settle(&mut self)
        requires
            old(self)@.verdict is Running,
            are_tasks_of(old(self).spec_input(), old(self)@.todo),
            old(self)@.cmdline is Some <==> old(self).spec_input().source is Boot,
            old(self).spec_input().spec_pci_enabled() ==> leaves_device_area(
                old(self)@.last_addr,
                old(self).spec_input().resources.layout,
            ),
        ensures
            final(self)@ == settle(old(self).spec_input(), old(self)@),
            final(self).spec_input() == old(self).spec_input(),
    {
        let ghost input = self.spec_input();
        let ghost settled = settle(input, self@);
        loop
            invariant
                input == old(self).spec_input(),
                settled == settle(input, old(self)@),
                self.spec_input() == input,
                settle(input, self@) == settled,
                self@.verdict is Running,
                are_tasks_of(input, self@.todo),
                self@.cmdline is Some <==> input.source is Boot,
                input.spec_pci_enabled() ==> leaves_device_area(
                    self@.last_addr,
                    input.resources.layout,
                ),
            decreases self@.todo.len(),
        {
            if self.todo.len() == 0 {
                self.verdict = Verdict::Built;
                return;
            }
            let task: Task = self.todo[0];
            assert(is_task_of(input, self@.todo[0]));
            let ghost before = self@;
            match task {
                Task::Host(_) => {
                    return;
                },
                Task::RootArguments(i) => {
                    let inserted: Result<(), CmdlineError> = match &mut self.cmdline {
                        Some(cmdline) => insert_root_arguments(
                            cmdline,
                            &self.input.resources.block[i],
                        ),
                        None => Ok(()),
                    };
                    match inserted {
                        Err(err) => {
                            self.verdict = Verdict::BadCmdline(err);
                            return;
                        },
                        Ok(_) => {
                            self.replace_first(Vec::new());
                            assert(self@.todo =~= before.todo.drop_first());
                        },
                    }
                },
                Task::PlanPci => {
                    let plan: Vec<Task> = setup_pci(self.last_addr, &self.input.resources.layout);
                    self.replace_first(plan);
                    return;
                },
                Task::PlanLegacyDevices => {
                    let text: Option<String> = match &self.cmdline {
                        Some(cmdline) => cmdline_text(cmdline),
                        None => None,
                    };
                    match text {
                        Some(text) => {
                            let has_console: bool = str_contains(text.as_str(), "console=");
                            self.replace_first(attach_legacy_devices_aarch64(has_console));
                            return;
                        },
                        None => {
                            self.verdict = Verdict::UnreadableCmdline;
                            return;
                        },
                    }
                },
                Task::PlanVcpuRestore => {
                    let states: usize = match &self.input.source {
                        Source::Snapshot(snapshot) => snapshot.vcpu_tsc_khz.len(),
                        Source::Boot => 0,
                    };
                    let plan: Vec<Task> = restore_vcpus(self.vcpus, states);
                    let count: usize = plan.len();
                    self.replace_first(plan);
                    if count > 0 {
                        return;
                    }
                    assert(self@.todo =~= before.todo.drop_first());
                },
                Task::RequireFilter(category) => {
                    if has_filter(&self.input.seccomp_filters, category) {
                        self.replace_first(Vec::new());
                        assert(self@.todo =~= before.todo.drop_first());
                    } else {
                        self.verdict = Verdict::MissingFilter(category);
                        return;
                    }
                },
            }
        }
    }

    /// What the microVM is built from.
    pub fn input(&self) -> (input: &BuildInput)
        ensures
            *input == self.spec_input(),
    {
        &self.input
    }

    /// Where the build stands.
    pub fn verdict(&self) -> (verdict: &Verdict)
        ensures
            *verdict == self@.verdict,
    {
        &self.verdict
    }

    /// The kernel command line, as far as it was put together.
    pub fn cmdline(&self) -> (cmdline: Option<&Cmdline>)
        ensures
            cmdline is Some <==> self@.cmdline is Some,
            cmdline matches Some(cmdline) ==> self@.cmdline == Some(model(*cmdline)),
    {
        self.cmdline.as_ref()
    }

    /// What the host has to do next, while the build runs.
    pub fn action(&self) -> (action: Option<Action>)
        requires
            self.wf(),
        ensures
            action is Some <==> self@.verdict is Running,
            action matches Some(action) ==> self@.todo[0] == Task::Host(action),
    {
        match self.verdict {
            Verdict::Running => match self.todo[0] {
                Task::Host(action) => Some(action),
                _ => None,
            },
            _ => None,
        }
    }

    /// Whether the outcome is one that the action can have.
    fn has_outcome(&self, action: Action, outcome: &Outcome) -> (possible: bool)
        requires
            is_task_of(self.spec_input(), Task::Host(action)),
        ensures
            possible == fits(self.spec_input(), action, *outcome),
    {
        match outcome {
            Outcome::Done => match action {
                Action::Vmm(VmmAction::AssembleVmm) => keeps_first_state(&self.input),
                _ => is_silent(action),
            },
            Outcome::GuestMemory { last_addr, .. } => match action {
                Action::AllocateGuestMemory => !self.input.pci_enabled() || has_device_area(
                    *last_addr,
                    &self.input.resources.layout,
                ),
                _ => false,
            },
            Outcome::Vcpus(count) => match action {
                Action::Vmm(VmmAction::CreateVcpus { .. }) => *count > 0 || !needs_first_vcpu(
                    &self.input,
                ),
                _ => false,
            },
            Outcome::Bdf(_) => match action {
                Action::Attach(device, AttachAction::NextDeviceBdf) => self.input.resources.device(
                    device,
                ).queues < usize::MAX,
                _ => false,
            },
            Outcome::DeviceId(_) => match action {
                Action::Vfio(_, VfioAction::NextDeviceId) => self.input.pci_enabled(),
                _ => false,
            },
            Outcome::Bars(_) => match action {
                Action::Attach(_, AttachAction::Pci(PciAction::AllocateBars { .. })) => true,
                Action::Vfio(_, VfioAction::Pci(PciAction::AllocateBars { .. })) => true,
                _ => false,
            },
            Outcome::BarAddress(bar_addr) => match action {
                Action::Attach(device, AttachAction::ConfigBarAddress) => are_notify_addresses(
                    *bar_addr,
                    self.input.resources.device(device).queue_events,
                ),
                _ => false,
            },
            Outcome::Cmdline(_) => match action {
                Action::Attach(_, AttachAction::RegisterMmio { .. }) => true,
                Action::Legacy(LegacyAction::AddSerialToCmdline) => true,
                _ => false,
            },
            Outcome::TscScaling(_) => match action {
                Action::Restore(RestoreAction::CheckTscScaling { .. }) => true,
                _ => false,
            },
            Outcome::Failed(_) => may_fail(action),
        }
    }

    /// Whether the build runs and the outcome is one that its next action can have.
    pub fn accepts(&self, outcome: &Outcome) -> (accepted: bool)
        requires
            self.wf(),
        ensures
            accepted == (self@.verdict is Running && fits(
                self.spec_input(),
                self@.todo[0]->Host_0,
                *outcome,
            )),
    {
        match self.action() {
            Some(action) => {
                assert(is_task_of(self.spec_input(), self@.todo[0]));
                self.has_outcome(action, outcome)
            },
            None => false,
        }
    }

    /// The steps that follow from what the host told of an action.
    fn follow_up(&self, action: Action, outcome: &Outcome) -> (tasks: Vec<Task>)
        requires
            is_task_of(self.spec_input(), Task::Host(action)),
            fits(self.spec_input(), action, *outcome),
        ensures
            tasks@ == follow_up(self.spec_input(), self@, action, *outcome),
    {
        let resources: &VmResources = &self.input.resources;
        match (action, outcome) {
            (Action::Attach(device, AttachAction::NextDeviceBdf), Outcome::Bdf(bdf)) => {
                attach_at_bdf(device, resources.device(device), *bdf)
            },
            (
                Action::Attach(device, AttachAction::Pci(PciAction::AllocateBars { device: slot })),
                Outcome::Bars(bars),
            ) => attach_pci_tasks(device, add_allocated_device(resources.arch, slot, bars)),
            (
                Action::Attach(device, AttachAction::ConfigBarAddress),
                Outcome::BarAddress(bar_addr),
            ) => register_notifications(device, resources.device(device).queue_events, *bar_addr),
            (Action::Vfio(i, VfioAction::NextDeviceId), Outcome::DeviceId(device_id)) => {
                add_vfio_device(i, *device_id, &self.regions)
            },
            (
                Action::Vfio(i, VfioAction::Pci(PciAction::AllocateBars { device: slot })),
                Outcome::Bars(bars),
            ) => vfio_pci_tasks(i, add_allocated_device(resources.arch, slot, bars)),
            (
                Action::Restore(RestoreAction::CheckTscScaling { khz }),
                Outcome::TscScaling(required),
            ) => scale_tsc(*required, self.vcpus, khz),
            _ => Vec::new(),
        }
    }

    /// Takes in what came of the action that was next, and goes on to the one after it.
    pub fn step(&mut self, outcome: Outcome)
        requires
            old(self).wf(),
            old(self)@.verdict is Running,
            fits(old(self).spec_input(), old(self)@.todo[0]->Host_0, outcome),
        ensures
            final(self)@ == step(old(self).spec_input(), old(self)@, outcome),
            final(self).spec_input() == old(self).spec_input(),
            final(self).wf(),
    {
        proof {
            law_step_keeps_build(self.spec_input(), self@, outcome);
            assert(is_task_of(self.spec_input(), self@.todo[0]));
        }
        let action: Action = match self.todo[0] {
            Task::Host(action) => action,
            _ => return ,
        };
        let tasks: Vec<Task> = self.follow_up(action, &outcome);
        match outcome {
            Outcome::Failed(cause) => {
                self.verdict = Verdict::HostFailed(action, cause);
                return;
            },
            Outcome::GuestMemory { last_addr, regions } => {
                self.last_addr = last_addr;
                self.regions = regions;
            },
            Outcome::Vcpus(count) => {
                self.vcpus = count;
            },
            Outcome::Cmdline(cmdline) => {
                self.cmdline = Some(cmdline);
            },
            _ => {},
        }
        self.replace_first(tasks);
        proof {
            lemma_follow_up(old(self).spec_input(), old(self)@, action, outcome);
        }
        self.settle();
    }

    /// What the microVM was built from, and where the build ended.
    pub fn into_parts(self) -> (parts: (BuildInput, Verdict))
        ensures
            parts.0 == self.spec_input(),
            parts.1 == self@.verdict,
    {
        (self.input, self.verdict)
    }
}

/// Begins to build a microVM by working on the tasks. Tasks that the functions of this library plan
/// can be put together to build other flavors of microVMs than the recipes below do.
pub fn build_microvm(input: BuildInput, tasks: Vec<Task>) -> (build: Build)
    requires
        can_begin(input, tasks@),
    ensures
        build.spec_input() == input,
        build@ == settle(input, begin(input, tasks@)),
        build.wf(),
{
    proof {
        lemma_begin(input, tasks@);
    }
    // The configured command line is copied, so that a failed boot does not pollute it.
    let cmdline: Option<Cmdline> = match &input.source {
        Source::Boot => match &input.resources.boot_config {
            Some(boot_config) => Some(clone_cmdline(&boot_config.cmdline)),
            None => None,
        },
        Source::Snapshot(_) => None,
    };
    let last_addr: u64 = match &input.source {
        Source::Boot => 0,
        Source::Snapshot(snapshot) => snapshot.last_addr,
    };
    let regions: Vec<MemoryRegion> = match &input.source {
        Source::Boot => Vec::new(),
        Source::Snapshot(snapshot) => snapshot.regions.clone(),
    };
    let mut build: Build = Build {
        input,
        todo: tasks,
        cmdline,
        last_addr,
        regions,
        vcpus: 0,
        verdict: Verdict::Running,
    };
    assert(build@ =~= begin(input, tasks@));
    build.settle();
    build
}

/// What a machine is booted from.
pub open spec fn boot_input(resources: VmResources, seccomp_filters: Vec<String>) -> BuildInput {
    BuildInput { resources, seccomp_filters, source: Source::Boot }
}

/// Begins to build a microVM that boots a kernel, from its configuration.
///
/// The built microVM and all its vCPUs start off paused: to let them run, the microVM has to be
/// resumed.
pub fn build_microvm_for_boot(resources: VmResources, seccomp_filters: Vec<String>) -> (result:
    Result<Build, StartMicrovmError>)
    ensures
        result is Ok <==> resources.boot_config is Some,
        result matches Err(error) ==> error is MissingKernelConfig,
        result matches Ok(build) ==> {
            let input = boot_input(resources, seccomp_filters);
            &&& build.spec_input() == input
            &&& build@ == settle(input, begin(input, boot_plan(resources)))
            &&& build.wf()
        },
{
    if resources.boot_config.is_none() {
        return Err(StartMicrovmError::MissingKernelConfig);
    }
    let plan: Vec<Task> = plan_boot(&resources);
    let input: BuildInput = BuildInput { resources, seccomp_filters, source: Source::Boot };
    proof {
        lemma_boot_plan(input);
        lemma_boot_prepared(input, plan@);
    }
    Ok(build_microvm(input, plan))
}

/// The steps of building a microVM that boots a kernel, and of letting it run.
pub open spec fn boot_and_run_plan(resources: VmResources) -> Seq<Task> {
    boot_plan(resources).push(Task::Host(Action::ResumeVm))
}

/// Begins to build a microVM that boots a kernel, and to let it run once it is built.
///
/// This is the default recipe. Other flavors of microVMs can be built by putting together the tasks
/// that the other functions plan.
pub fn build_and_boot_microvm(resources: VmResources, seccomp_filters: Vec<String>) -> (result:
    Result<Build, StartMicrovmError>)
    ensures
        result is Ok <==> resources.boot_config is Some,
        result matches Err(error) ==> error is MissingKernelConfig,
        result matches Ok(build) ==> {
            let input = boot_input(resources, seccomp_filters);
            &&& build.spec_input() == input
            &&& build@ == settle(input, begin(input, boot_and_run_plan(resources)))
            &&& build.wf()
        },
{
    if resources.boot_config.is_none() {
        return Err(StartMicrovmError::MissingKernelConfig);
    }
    let mut plan: Vec<Task> = plan_boot(&resources);
    plan.push(Task::Host(Action::ResumeVm));
    let input: BuildInput = BuildInput { resources, seccomp_filters, source: Source::Boot };
    proof {
        lemma_boot_plan(input);
        lemma_boot_prepared(input, plan@);
    }
    Ok(build_microvm(input, plan))
}

/// What a machine is restored from.
pub open spec fn snapshot_input(
    resources: VmResources,
    seccomp_filters: Vec<String>,
    snapshot: SnapshotInfo,
) -> BuildInput {
    BuildInput { resources, seccomp_filters, source: Source::Snapshot(snapshot) }
}

/// Begins to build a microVM from a snapshot.
pub fn build_microvm_from_snapshot(
    resources: VmResources,
    seccomp_filters: Vec<String>,
    snapshot: SnapshotInfo,
) -> (build: Build)
    requires
        resources.spec_pci_enabled(false) ==> leaves_device_area(
            snapshot.last_addr,
            resources.layout,
        ),
    ensures
        ({
            let input = snapshot_input(resources, seccomp_filters, snapshot);
            &&& build.spec_input() == input
            &&& build@ == settle(input, begin(input, snapshot_plan(resources, snapshot)))
            &&& build.wf()
        }),
{
    let plan: Vec<Task> = plan_snapshot(&resources, &snapshot);
    let input: BuildInput = BuildInput {
        resources,
        seccomp_filters,
        source: Source::Snapshot(snapshot),
    };
    proof {
        lemma_snapshot_plan(input);
    }
    build_microvm(input, plan)
}

/// What the start of a microVM ends with, where the build stands at `verdict`: nothing while it
/// runs, and an error for each way in which it can go wrong.
pub open spec fn is_start_result(
    verdict: Verdict,
    result: Option<Result<(), StartMicrovmError>>,
) -> bool {
    match verdict {
        Verdict::Running => result is None,
        Verdict::Built => result == Some(Ok::<(), StartMicrovmError>(())),
        Verdict::HostFailed(action, cause) => result == Some(
            Err::<(), StartMicrovmError>(start_error(action, cause)),
        ),
        Verdict::BadCmdline(err) => {
            &&& result matches Some(Err(StartMicrovmError::KernelCmdline(text)))
            &&& text@ == error_text(err)
        },
        Verdict::UnreadableCmdline => result == Some(
            Err::<(), StartMicrovmError>(StartMicrovmError::Internal(VmmError::Cmdline)),
        ),
        Verdict::MissingFilter(category) => {
            &&& result matches Some(Err(StartMicrovmError::MissingSeccompFilters(name)))
            &&& name@ == category.spec_name()
        },
    }
}

/// What the start of a microVM ends with, once its build has ended.
pub fn start_result(verdict: Verdict) -> (result: Option<Result<(), StartMicrovmError>>)
    ensures
        is_start_result(verdict, result),
{
    match verdict {
        Verdict::Running => None,
        Verdict::Built => Some(Ok(())),
        Verdict::HostFailed(action, cause) => Some(Err(start_failure(action, cause))),
        Verdict::BadCmdline(err) => Some(Err(StartMicrovmError::from(err))),
        Verdict::UnreadableCmdline => Some(Err(StartMicrovmError::from(VmmError::Cmdline))),
        Verdict::MissingFilter(category) => Some(
            Err(StartMicrovmError::MissingSeccompFilters(category.name())),
        ),
    }
}

/// What the restoration of a microVM ends with, where the build stands at `verdict`. A restored
/// machine has no kernel command line that could be wrong.
pub open spec fn is_snapshot_result(
    verdict: Verdict,
    result: Option<Result<(), BuildMicrovmFromSnapshotError>>,
) -> bool {
    match verdict {
        Verdict::Running => result is None,
        Verdict::Built => result == Some(Ok::<(), BuildMicrovmFromSnapshotError>(())),
        Verdict::HostFailed(action, cause) => result == Some(
            Err::<(), BuildMicrovmFromSnapshotError>(snapshot_error(action, cause)),
        ),
        Verdict::MissingFilter(ThreadCategory::Vcpu) => {
            result matches Some(Err(BuildMicrovmFromSnapshotError::MissingVcpuSeccompFilters))
        },
        Verdict::MissingFilter(ThreadCategory::Vmm) => {
            result matches Some(Err(BuildMicrovmFromSnapshotError::MissingVmmSeccompFilters))
        },
        Verdict::BadCmdline(_) | Verdict::UnreadableCmdline => {
            &&& result matches Some(Err(BuildMicrovmFromSnapshotError::CreateMicrovmAndVcpus(err)))
            &&& is_start_result(verdict, Some(Err(err)))
        },
    }
}

/// What the restoration of a microVM ends with, once its build has ended.
pub fn snapshot_result(verdict: Verdict) -> (result: Option<
    Result<(), BuildMicrovmFromSnapshotError>,
>)
    ensures
        is_snapshot_result(verdict, result),
{
    match verdict {
        Verdict::Running => None,
        Verdict::Built => Some(Ok(())),
        Verdict::HostFailed(action, cause) => Some(Err(snapshot_failure(action, cause))),
        Verdict::MissingFilter(ThreadCategory::Vcpu) => Some(
            Err(BuildMicrovmFromSnapshotError::MissingVcpuSeccompFilters),
        ),
        Verdict::MissingFilter(ThreadCategory::Vmm) => Some(
            Err(BuildMicrovmFromSnapshotError::MissingVmmSeccompFilters),
        ),
        Verdict::BadCmdline(err) => Some(
            Err(BuildMicrovmFromSnapshotError::from(StartMicrovmError::from(err))),
        ),
        Verdict::UnreadableCmdline => Some(
            Err(
                BuildMicrovmFromSnapshotError::from(StartMicrovmError::from(VmmError::Cmdline)),
            ),
        ),
    }
}

} // verus!
