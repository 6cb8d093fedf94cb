//! Which error each failure ends with, whatever its cause and whichever device it befell.
use crate::builder::{is_snapshot_result, is_start_result};
use crate::cmdline::error_text;
use crate::error::{
    BuildMicrovmFromSnapshotError, MicrovmStateError, MmioError, StartMicrovmError, VcpuError,
    VmmError,
};
use crate::failure::{can_fail, pci_error, snapshot_error, start_error};
use crate::model::Verdict;
use crate::resources::{DeviceHandle, ThreadCategory};
use crate::task::{
    Action, AttachAction, Capabilities, LegacyAction, PciAction, RestoreAction, SerialAction,
    VfioAction, VmgenidAction, VmmAction,
};
use vstd::prelude::*;

verus! {

/// The failures of a start that have a variant of their own keep their cause in it.
pub proof fn law_start_failures_keep_their_cause(cause: String, step: VmgenidAction)
    ensures
        start_error(Action::AllocateGuestMemory, cause) == StartMicrovmError::GuestMemory(cause),
        start_error(Action::LoadKernel, cause) == StartMicrovmError::ConfigureSystem(cause),
        start_error(Action::ConfigureSystem, cause) == StartMicrovmError::ConfigureSystem(cause),
        start_error(Action::LoadInitrd, cause) == StartMicrovmError::Initrd(cause),
        start_error(Action::GetCpuTemplate, cause) == StartMicrovmError::GetCpuTemplate(cause),
        start_error(Action::CloneVcpuFds, cause) == StartMicrovmError::VcpuFdCloneError(cause),
        start_error(Action::StartGdb, cause) == StartMicrovmError::GdbServer(cause),
        start_error(Action::Vmgenid(step), cause) == if step == VmgenidAction::Create {
            StartMicrovmError::CreateVMGenID(cause)
        } else {
            StartMicrovmError::AttachVmgenidDevice(cause)
        },
        start_error(Action::AttachBootTimer, cause) == StartMicrovmError::RegisterMmioDevice(
            MmioError::Device(cause),
        ),
        start_error(Action::StartVcpus, cause) == StartMicrovmError::Internal(
            VmmError::VcpuStart(cause),
        ),
        start_error(Action::ApplySeccompFilter, cause) == StartMicrovmError::Internal(
            VmmError::SeccompFilters(cause),
        ),
{
}

/// What fails while the monitor is created is an internal error that keeps its cause: whatever
/// capabilities were asked for, however many vCPUs, and whichever event could not be created.
pub proof fn law_monitor_failures_keep_their_cause(
    cause: String,
    capabilities: Capabilities,
    count: u8,
    serial: SerialAction,
)
    ensures
        start_error(Action::Vmm(VmmAction::OpenKvm { capabilities }), cause)
            == StartMicrovmError::Internal(VmmError::Kvm(cause)),
        start_error(Action::Vmm(VmmAction::CreateVcpus { count }), cause)
            == StartMicrovmError::Internal(VmmError::Vm(cause)),
        start_error(Action::Vmm(VmmAction::Serial(serial)), cause) == StartMicrovmError::Internal(
            VmmError::EventFd(cause),
        ),
        start_error(Action::Vmm(VmmAction::CloneExitEvent), cause) == StartMicrovmError::Internal(
            VmmError::EventFd(cause),
        ),
        start_error(Action::Vmm(VmmAction::CreateVm), cause) == StartMicrovmError::Internal(
            VmmError::Host(cause),
        ),
        start_error(Action::Vmm(VmmAction::CheckMemory), cause) == StartMicrovmError::Internal(
            VmmError::Host(cause),
        ),
        start_error(Action::Vmm(VmmAction::InitMemory), cause) == StartMicrovmError::Internal(
            VmmError::Host(cause),
        ),
        start_error(Action::Vmm(VmmAction::CreateResourceAllocator), cause)
            == StartMicrovmError::Internal(VmmError::Host(cause)),
        start_error(Action::ResumeVm, cause) == StartMicrovmError::Internal(VmmError::Host(cause)),
        start_error(Action::Legacy(LegacyAction::Serial(serial)), cause)
            == StartMicrovmError::Internal(VmmError::EventFd(cause)),
        start_error(Action::Legacy(LegacyAction::RegisterSerial), cause)
            == StartMicrovmError::Internal(VmmError::RegisterMMIODevice(MmioError::Device(cause))),
        start_error(Action::Legacy(LegacyAction::AddSerialToCmdline), cause)
            == StartMicrovmError::Internal(VmmError::RegisterMMIODevice(MmioError::Device(cause))),
        start_error(Action::Legacy(LegacyAction::RegisterRtc), cause)
            == StartMicrovmError::Internal(VmmError::RegisterMMIODevice(MmioError::Device(cause))),
{
}

/// What fails while a virtio device is attached is told in the same way for every device, at every
/// address: registering it, over MMIO or for the notifications of a queue, keeps the cause, and whatever
/// keeps it from the PCI bus is an unknown error.
pub proof fn law_attachment_failures_are_alike(
    cause: String,
    device: DeviceHandle,
    action: AttachAction,
)
    ensures
        start_error(Action::Attach(device, action), cause) == StartMicrovmError::RegisterMmioDevice(
            if action is RegisterMmio {
                MmioError::Device(cause)
            } else if action is RegisterIoevent {
                MmioError::RegisterIoEvent(cause)
            } else {
                MmioError::Unknown
            },
        ),
{
}

/// What fails while a device is passed through is told in the same way for every device: mapping a
/// region of memory is a failure on the bus, and everything else one of the device.
pub proof fn law_passthrough_failures_are_alike(cause: String, i: usize, action: VfioAction)
    ensures
        start_error(Action::Vfio(i, action), cause) == if action is DmaMap {
            StartMicrovmError::VfioPciError(cause)
        } else {
            StartMicrovmError::VfioError(cause)
        },
{
}

/// Only a bus that refuses a device says why.
pub proof fn law_only_buses_say_why(cause: String, action: PciAction)
    ensures
        pci_error(action, cause) == if action is InsertIoBus || action is InsertMmioBus {
            VmmError::DeviceManager(MmioError::BusInsert(cause))
        } else {
            VmmError::Unknown
        },
{
}

/// The failures of restoring a machine keep their cause, whichever vCPU they befell and whatever the
/// frequency; what fails in work that a start has too, such as creating the monitor, is the failure that
/// the start would have had.
pub proof fn law_restoration_failures_keep_their_cause(
    cause: String,
    khz: u32,
    vcpu: usize,
    restored_from_file: bool,
    action: Action,
)
    ensures
        snapshot_error(Action::Restore(RestoreAction::CheckTscScaling { khz }), cause)
            == BuildMicrovmFromSnapshotError::GetTsc(cause),
        snapshot_error(Action::Restore(RestoreAction::SetTsc { vcpu, khz }), cause)
            == BuildMicrovmFromSnapshotError::SetTsc(cause),
        snapshot_error(Action::Restore(RestoreAction::RestoreVcpu { index: vcpu }), cause)
            == BuildMicrovmFromSnapshotError::RestoreVcpus(VcpuError::VcpuResponse(cause)),
        snapshot_error(Action::Restore(RestoreAction::RestoreVm), cause)
            == BuildMicrovmFromSnapshotError::RestoreState(cause),
        snapshot_error(
            Action::Restore(RestoreAction::RestoreMmioDevices { restored_from_file }),
            cause,
        ) == BuildMicrovmFromSnapshotError::RestoreMmioDevice(
            MicrovmStateError::RestoreDevices(cause),
        ),
        snapshot_error(Action::Restore(RestoreAction::EmulateSerialInit), cause)
            == BuildMicrovmFromSnapshotError::EmulateSerialInit(cause),
        snapshot_error(Action::Restore(RestoreAction::RestoreAcpiDevices), cause)
            == BuildMicrovmFromSnapshotError::ACPIDeviManager(cause),
        snapshot_error(Action::Restore(RestoreAction::NotifyVmgenid), cause)
            == BuildMicrovmFromSnapshotError::VMGenIDUpdate(cause),
        snapshot_error(Action::StartVcpus, cause) == BuildMicrovmFromSnapshotError::StartVcpus(
            cause,
        ),
        snapshot_error(Action::ApplySeccompFilter, cause)
            == BuildMicrovmFromSnapshotError::SeccompFiltersInternal(cause),
        !(action is Restore) && !(action is StartVcpus) && !(action is ApplySeccompFilter)
            ==> snapshot_error(action, cause)
            == BuildMicrovmFromSnapshotError::CreateMicrovmAndVcpus(start_error(action, cause)),
{
}

/// Whether a step can fail does not depend on the device, nor on the numbers that it is about.
pub proof fn law_failing_does_not_depend_on_numbers(
    a: DeviceHandle,
    b: DeviceHandle,
    action: AttachAction,
    i: usize,
    j: usize,
    passing: VfioAction,
    khz: u32,
    count: u8,
    capabilities: Capabilities,
)
    ensures
        can_fail(Action::Attach(a, action)) == can_fail(Action::Attach(b, action)),
        can_fail(Action::Attach(a, action)) <==> !(action is Subscribe) && !(action
            is ConfigBarAddress),
        can_fail(Action::Vfio(i, passing)) == can_fail(Action::Vfio(j, passing)),
        can_fail(Action::Vfio(i, passing)) <==> passing is CreateContainer || passing is OpenDevice
            || passing is DmaMap,
        can_fail(Action::Vmm(VmmAction::CreateVcpus { count })),
        can_fail(Action::Vmm(VmmAction::OpenKvm { capabilities })),
        can_fail(Action::Restore(RestoreAction::CheckTscScaling { khz })),
        can_fail(Action::Restore(RestoreAction::SetTsc { vcpu: i, khz })),
        can_fail(Action::Restore(RestoreAction::RestoreVcpu { index: i })),
{
}

/// The steps that cannot fail: those that only put together what is there, and those whose failure the
/// host does not survive. All others can.
pub proof fn law_what_cannot_fail(action: Action)
    ensures
        !can_fail(action) <==> match action {
            Action::Vmm(step) => match step {
                VmmAction::CreateDeviceManagers
                | VmmAction::SetStdoutNonblocking
                | VmmAction::CreatePortIoManager
                | VmmAction::Pci(_)
                | VmmAction::RegisterPortIoDevices
                | VmmAction::AssembleVmm => true,
                VmmAction::Serial(serial) => serial is CreateDevice || serial is Subscribe,
                _ => false,
            },
            Action::Attach(_, step) => step is Subscribe || step is ConfigBarAddress,
            Action::Vfio(_, step) => step is NextDeviceId || step is CreateDevice || step is Pci,
            Action::Legacy(step) => match step {
                LegacyAction::SetStdoutNonblocking => true,
                LegacyAction::Serial(serial) => serial is CreateDevice || serial is Subscribe,
                _ => false,
            },
            Action::Restore(step) => step is RestoreBootSource,
            _ => action is AttachDebugInfo || action is CreatePassthroughDevice || action
                is SubscribeVmm,
        },
{
}

/// A start succeeds where and only where its build did, has no result while the build runs, and
/// otherwise ends with one error: that of the action that failed, the description of what the command
/// line refused, or the name of the filter that was missed.
pub proof fn law_start_ends_as_its_build(
    verdict: Verdict,
    result: Option<Result<(), StartMicrovmError>>,
)
    requires
        is_start_result(verdict, result),
    ensures
        result is None <==> verdict is Running,
        result matches Some(Ok(_)) <==> verdict is Built,
        verdict matches Verdict::HostFailed(action, cause) ==> (result matches Some(Err(err)) && err
            == start_error(action, cause)),
        verdict matches Verdict::BadCmdline(refused) ==> (result matches Some(
            Err(StartMicrovmError::KernelCmdline(text)),
        ) && text@ == error_text(refused)),
        verdict is UnreadableCmdline ==> result matches Some(
            Err(StartMicrovmError::Internal(VmmError::Cmdline)),
        ),
        verdict == Verdict::MissingFilter(ThreadCategory::Vcpu) ==> (result matches Some(
            Err(StartMicrovmError::MissingSeccompFilters(name)),
        ) && name@ == "vcpu"@),
        verdict == Verdict::MissingFilter(ThreadCategory::Vmm) ==> (result matches Some(
            Err(StartMicrovmError::MissingSeccompFilters(name)),
        ) && name@ == "vmm"@),
{
}

/// Restoring succeeds where and only where its build did, has no result while the build runs, and
/// otherwise ends with one error: that of the action that failed, or that of the filter that was missed.
pub proof fn law_restoration_ends_as_its_build(
    verdict: Verdict,
    result: Option<Result<(), BuildMicrovmFromSnapshotError>>,
)
    requires
        is_snapshot_result(verdict, result),
    ensures
        result is None <==> verdict is Running,
        result matches Some(Ok(_)) <==> verdict is Built,
        verdict matches Verdict::HostFailed(action, cause) ==> (result matches Some(Err(err)) && err
            == snapshot_error(action, cause)),
        verdict == Verdict::MissingFilter(ThreadCategory::Vcpu) <==> result matches Some(
            Err(BuildMicrovmFromSnapshotError::MissingVcpuSeccompFilters),
        ),
        verdict == Verdict::MissingFilter(ThreadCategory::Vmm) <==> result matches Some(
            Err(BuildMicrovmFromSnapshotError::MissingVmmSeccompFilters),
        ),
{
}

} // verus!
