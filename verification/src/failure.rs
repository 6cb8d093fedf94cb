//! Which error a failed piece of work ends a build with.
use crate::error::{
    BuildMicrovmFromSnapshotError, MicrovmStateError, MmioError, StartMicrovmError, VcpuError,
    VmmError,
};
use crate::task::{
    Action, AttachAction, LegacyAction, PciAction, RestoreAction, SerialAction, VfioAction,
    VmgenidAction, VmmAction,
};
use vstd::prelude::*;

verus! {

/// Creating an event is the only step of the serial device that can fail.
pub open spec fn serial_can_fail(action: SerialAction) -> bool {
    action == SerialAction::CreateInterruptEvent || action == SerialAction::CreateKickStdinEvent
}

/// The steps of creating the monitor that can fail. The others have no failure that a build could
/// end with: the host goes down with it.
pub open spec fn vmm_can_fail(action: VmmAction) -> bool {
    match action {
        VmmAction::OpenKvm { .. }
        | VmmAction::CreateVm
        | VmmAction::CheckMemory
        | VmmAction::InitMemory
        | VmmAction::CreateVcpus { .. }
        | VmmAction::CreateResourceAllocator
        | VmmAction::CloneExitEvent => true,
        VmmAction::Serial(action) => serial_can_fail(action),
        _ => false,
    }
}

/// Whether a build can end with the failure of the action.
pub open spec fn can_fail(action: Action) -> bool {
    match action {
        Action::Vmm(action) => vmm_can_fail(action),
        Action::Attach(_, action) => action != AttachAction::Subscribe && action
            != AttachAction::ConfigBarAddress,
        Action::Vfio(_, action) => match action {
            VfioAction::CreateContainer | VfioAction::OpenDevice | VfioAction::DmaMap { .. } => true,
            _ => false,
        },
        Action::Legacy(action) => match action {
            LegacyAction::SetStdoutNonblocking => false,
            LegacyAction::Serial(action) => serial_can_fail(action),
            _ => true,
        },
        Action::Restore(action) => action != RestoreAction::RestoreBootSource,
        Action::AttachDebugInfo | Action::CreatePassthroughDevice | Action::SubscribeVmm => false,
        _ => true,
    }
}

fn serial_may_fail(action: SerialAction) -> (fallible: bool)
    ensures
        fallible == serial_can_fail(action),
{
    match action {
        SerialAction::CreateInterruptEvent | SerialAction::CreateKickStdinEvent => true,
        _ => false,
    }
}

/// Whether a build can end with the failure of the action.
pub fn may_fail(action: Action) -> (fallible: bool)
    ensures
        fallible == can_fail(action),
{
    match action {
        Action::Vmm(action) => match action {
            VmmAction::OpenKvm { .. }
            | VmmAction::CreateVm
            | VmmAction::CheckMemory
            | VmmAction::InitMemory
            | VmmAction::CreateVcpus { .. }
            | VmmAction::CreateResourceAllocator
            | VmmAction::CloneExitEvent => true,
            VmmAction::Serial(action) => serial_may_fail(action),
            _ => false,
        },
        Action::Attach(_, action) => match action {
            AttachAction::Subscribe | AttachAction::ConfigBarAddress => false,
            _ => true,
        },
        Action::Vfio(_, action) => match action {
            VfioAction::CreateContainer | VfioAction::OpenDevice | VfioAction::DmaMap { .. } => true,
            _ => false,
        },
        Action::Legacy(action) => match action {
            LegacyAction::SetStdoutNonblocking => false,
            LegacyAction::Serial(action) => serial_may_fail(action),
            _ => true,
        },
        Action::Restore(action) => match action {
            RestoreAction::RestoreBootSource => false,
            _ => true,
        },
        Action::AttachDebugInfo | Action::CreatePassthroughDevice | Action::SubscribeVmm => false,
        _ => true,
    }
}

/// The error of placing a device on the PCI bus. Only a bus says why it refused.
pub open spec fn pci_error(action: PciAction, cause: String) -> VmmError {
    match action {
        PciAction::AllocateBars { .. } | PciAction::AddDevice { .. } => VmmError::Unknown,
        PciAction::InsertIoBus { .. } | PciAction::InsertMmioBus { .. } =>
            VmmError::DeviceManager(MmioError::BusInsert(cause)),
    }
}

/// The error of placing a device on the PCI bus.
pub fn pci_failure(action: PciAction, cause: String) -> (error: VmmError)
    ensures
        error == pci_error(action, cause),
{
    match action {
        PciAction::AllocateBars { .. } | PciAction::AddDevice { .. } => VmmError::Unknown,
        PciAction::InsertIoBus { .. } | PciAction::InsertMmioBus { .. } => {
            VmmError::DeviceManager(MmioError::BusInsert(cause))
        },
    }
}

/// The error of attaching a virtio device. Over PCI, whatever keeps the device from the bus is
/// told as an unknown error.
pub open spec fn attach_error(action: AttachAction, cause: String) -> MmioError {
    match action {
        AttachAction::RegisterMmio { .. } => MmioError::Device(cause),
        AttachAction::RegisterIoevent { .. } => MmioError::RegisterIoEvent(cause),
        _ => MmioError::Unknown,
    }
}

/// The error of attaching a virtio device.
pub fn attach_failure(action: AttachAction, cause: String) -> (error: MmioError)
    ensures
        error == attach_error(action, cause),
{
    match action {
        AttachAction::RegisterMmio { .. } => MmioError::Device(cause),
        AttachAction::RegisterIoevent { .. } => MmioError::RegisterIoEvent(cause),
        _ => MmioError::Unknown,
    }
}

/// The error of creating the monitor.
pub open spec fn vmm_error(action: VmmAction, cause: String) -> VmmError {
    match action {
        VmmAction::OpenKvm { .. } => VmmError::Kvm(cause),
        VmmAction::CreateVcpus { .. } => VmmError::Vm(cause),
        VmmAction::Serial(_) | VmmAction::CloneExitEvent => VmmError::EventFd(cause),
        _ => VmmError::Host(cause),
    }
}

/// The error of creating the monitor.
pub fn vmm_failure(action: VmmAction, cause: String) -> (error: VmmError)
    ensures
        error == vmm_error(action, cause),
{
    match action {
        VmmAction::OpenKvm { .. } => VmmError::Kvm(cause),
        VmmAction::CreateVcpus { .. } => VmmError::Vm(cause),
        VmmAction::Serial(_) | VmmAction::CloneExitEvent => VmmError::EventFd(cause),
        _ => VmmError::Host(cause),
    }
}

/// The error of attaching the legacy devices.
pub open spec fn legacy_error(action: LegacyAction, cause: String) -> VmmError {
    match action {
        LegacyAction::Serial(_) => VmmError::EventFd(cause),
        _ => VmmError::RegisterMMIODevice(MmioError::Device(cause)),
    }
}

/// The error of attaching the legacy devices.
pub fn legacy_failure(action: LegacyAction, cause: String) -> (error: VmmError)
    ensures
        error == legacy_error(action, cause),
{
    match action {
        LegacyAction::Serial(_) => VmmError::EventFd(cause),
        _ => VmmError::RegisterMMIODevice(MmioError::Device(cause)),
    }
}

/// The error that the failure of an action ends the start of a microVM with.
pub open spec fn start_error(action: Action, cause: String) -> StartMicrovmError {
    match action {
        Action::AllocateGuestMemory => StartMicrovmError::GuestMemory(cause),
        Action::LoadKernel | Action::ConfigureSystem => StartMicrovmError::ConfigureSystem(cause),
        Action::LoadInitrd => StartMicrovmError::Initrd(cause),
        Action::GetCpuTemplate => StartMicrovmError::GetCpuTemplate(cause),
        Action::Vmm(action) => StartMicrovmError::Internal(vmm_error(action, cause)),
        Action::CloneVcpuFds => StartMicrovmError::VcpuFdCloneError(cause),
        Action::AttachBootTimer => StartMicrovmError::RegisterMmioDevice(MmioError::Device(cause)),
        Action::Attach(_, action) =>
            StartMicrovmError::RegisterMmioDevice(attach_error(action, cause)),
        Action::Vfio(_, action) => match action {
            VfioAction::DmaMap { .. } => StartMicrovmError::VfioPciError(cause),
            _ => StartMicrovmError::VfioError(cause),
        },
        Action::Legacy(action) => StartMicrovmError::Internal(legacy_error(action, cause)),
        Action::Vmgenid(VmgenidAction::Create) => StartMicrovmError::CreateVMGenID(cause),
        Action::Vmgenid(VmgenidAction::Attach) => StartMicrovmError::AttachVmgenidDevice(cause),
        Action::StartGdb => StartMicrovmError::GdbServer(cause),
        Action::StartVcpus => StartMicrovmError::Internal(VmmError::VcpuStart(cause)),
        Action::ApplySeccompFilter => StartMicrovmError::Internal(VmmError::SeccompFilters(cause)),
        Action::ResumeVm => StartMicrovmError::Internal(VmmError::Host(cause)),
        _ => StartMicrovmError::Unknown,
    }
}

/// The error that the failure of an action ends the start of a microVM with.
pub fn start_failure(action: Action, cause: String) -> (error: StartMicrovmError)
    ensures
        error == start_error(action, cause),
{
    match action {
        Action::AllocateGuestMemory => StartMicrovmError::GuestMemory(cause),
        Action::LoadKernel | Action::ConfigureSystem => StartMicrovmError::ConfigureSystem(cause),
        Action::LoadInitrd => StartMicrovmError::Initrd(cause),
        Action::GetCpuTemplate => StartMicrovmError::GetCpuTemplate(cause),
        Action::Vmm(action) => StartMicrovmError::from(vmm_failure(action, cause)),
        Action::CloneVcpuFds => StartMicrovmError::VcpuFdCloneError(cause),
        Action::AttachBootTimer => StartMicrovmError::from(MmioError::Device(cause)),
        Action::Attach(_, action) => StartMicrovmError::from(attach_failure(action, cause)),
        Action::Vfio(_, action) => match action {
            VfioAction::DmaMap { .. } => StartMicrovmError::VfioPciError(cause),
            _ => StartMicrovmError::VfioError(cause),
        },
        Action::Legacy(action) => StartMicrovmError::from(legacy_failure(action, cause)),
        Action::Vmgenid(VmgenidAction::Create) => StartMicrovmError::CreateVMGenID(cause),
        Action::Vmgenid(VmgenidAction::Attach) => StartMicrovmError::AttachVmgenidDevice(cause),
        Action::StartGdb => StartMicrovmError::GdbServer(cause),
        Action::StartVcpus => StartMicrovmError::from(VmmError::VcpuStart(cause)),
        Action::ApplySeccompFilter => StartMicrovmError::from(VmmError::SeccompFilters(cause)),
        Action::ResumeVm => StartMicrovmError::from(VmmError::Host(cause)),
        _ => StartMicrovmError::Unknown,
    }
}

/// The error that the failure of an action ends the restoration of a microVM with.
pub open spec fn snapshot_error(action: Action, cause: String) -> BuildMicrovmFromSnapshotError {
    match action {
        Action::Restore(action) => match action {
            RestoreAction::CheckTscScaling { .. } => BuildMicrovmFromSnapshotError::GetTsc(cause),
            RestoreAction::SetTsc { .. } => BuildMicrovmFromSnapshotError::SetTsc(cause),
            RestoreAction::RestoreVcpu { .. } =>
                BuildMicrovmFromSnapshotError::RestoreVcpus(VcpuError::VcpuResponse(cause)),
            RestoreAction::RestoreVm | RestoreAction::RestoreBootSource =>
                BuildMicrovmFromSnapshotError::RestoreState(cause),
            RestoreAction::RestoreMmioDevices { .. } =>
                BuildMicrovmFromSnapshotError::RestoreMmioDevice(
                MicrovmStateError::RestoreDevices(cause),
            ),
            RestoreAction::EmulateSerialInit =>
                BuildMicrovmFromSnapshotError::EmulateSerialInit(cause),
            RestoreAction::RestoreAcpiDevices =>
                BuildMicrovmFromSnapshotError::ACPIDeviManager(cause),
            RestoreAction::NotifyVmgenid => BuildMicrovmFromSnapshotError::VMGenIDUpdate(cause),
        },
        Action::StartVcpus => BuildMicrovmFromSnapshotError::StartVcpus(cause),
        Action::ApplySeccompFilter => BuildMicrovmFromSnapshotError::SeccompFiltersInternal(cause),
        _ => BuildMicrovmFromSnapshotError::CreateMicrovmAndVcpus(start_error(action, cause)),
    }
}

/// The error that the failure of an action ends the restoration of a microVM with.
pub fn snapshot_failure(action: Action, cause: String) -> (error: BuildMicrovmFromSnapshotError)
    ensures
        error == snapshot_error(action, cause),
{
    match action {
        Action::Restore(action) => match action {
            RestoreAction::CheckTscScaling { .. } => BuildMicrovmFromSnapshotError::GetTsc(cause),
            RestoreAction::SetTsc { .. } => BuildMicrovmFromSnapshotError::SetTsc(cause),
            RestoreAction::RestoreVcpu { .. } => {
                BuildMicrovmFromSnapshotError::RestoreVcpus(VcpuError::VcpuResponse(cause))
            },
            RestoreAction::RestoreVm | RestoreAction::RestoreBootSource => {
                BuildMicrovmFromSnapshotError::RestoreState(cause)
            },
            RestoreAction::RestoreMmioDevices { .. } => {
                BuildMicrovmFromSnapshotError::from(MicrovmStateError::RestoreDevices(cause))
            },
            RestoreAction::EmulateSerialInit => {
                BuildMicrovmFromSnapshotError::EmulateSerialInit(cause)
            },
            RestoreAction::RestoreAcpiDevices => {
                BuildMicrovmFromSnapshotError::ACPIDeviManager(cause)
            },
            RestoreAction::NotifyVmgenid => BuildMicrovmFromSnapshotError::VMGenIDUpdate(cause),
        },
        Action::StartVcpus => BuildMicrovmFromSnapshotError::StartVcpus(cause),
        Action::ApplySeccompFilter => BuildMicrovmFromSnapshotError::SeccompFiltersInternal(cause),
        _ => BuildMicrovmFromSnapshotError::from(start_failure(action, cause)),
    }
}

} // verus!
