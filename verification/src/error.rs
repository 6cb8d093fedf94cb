//! The errors of building a microVM. A payload that is a string holds the description of the
//! error that the host met.
use crate::cmdline::{error_text, error_to_string};
use linux_loader::cmdline::Error as CmdlineError;
use vstd::prelude::*;
use vstd::std_specs::convert::FromSpecImpl;

verus! {

/// Errors of attaching a device.
#[derive(Debug)]
pub enum MmioError {
    /// Failed to insert a device in the bus: {0}
    BusInsert(String),
    /// Failed to register an ioevent: {0}
    RegisterIoEvent(String),
    /// The device manager refused the device: {0}
    Device(String),
    /// Unknown device error
    Unknown,
}

/// Errors of the virtual machine monitor.
#[derive(Debug)]
pub enum VmmError {
    /// Error opening KVM: {0}
    Kvm(String),
    /// Error of the virtual machine: {0}
    Vm(String),
    /// Error creating an event: {0}
    EventFd(String),
    /// Error of a device manager: {0}
    DeviceManager(MmioError),
    /// Error registering an MMIO device: {0}
    RegisterMMIODevice(MmioError),
    /// The kernel command line cannot be read
    Cmdline,
    /// Error starting a vCPU: {0}
    VcpuStart(String),
    /// Error applying the seccomp filters: {0}
    SeccompFilters(String),
    /// Error of the host: {0}
    Host(String),
    /// Unknown error
    Unknown,
}

/// Errors of a vCPU.
#[derive(Debug)]
pub enum VcpuError {
    /// The vCPU refused its state: {0}
    VcpuResponse(String),
}

/// Errors of a microVM state.
#[derive(Debug)]
pub enum MicrovmStateError {
    /// Cannot restore devices: {0}
    RestoreDevices(String),
}

/// Errors associated with starting the instance.
#[derive(Debug)]
pub enum StartMicrovmError {
    /// Unable to attach block device to Vmm: {0}
    AttachBlockDevice(String),
    /// Unable to attach the VMGenID device: {0}
    AttachVmgenidDevice(String),
    /// System configuration error: {0}
    ConfigureSystem(String),
    /// Failed to create guest config: {0}
    CreateGuestConfig(String),
    /// Cannot create network device: {0}
    CreateNetDevice(String),
    /// Cannot create RateLimiter: {0}
    CreateRateLimiter(String),
    /// Error creating legacy device: {0}
    CreateLegacyDevice(String),
    /// Error creating VMGenID device: {0}
    CreateVMGenID(String),
    /// Invalid Memory Configuration: {0}
    GuestMemory(String),
    /// Error with initrd initialization: {0}.
    Initrd(String),
    /// Internal error while starting microVM: {0}
    Internal(VmmError),
    /// Failed to get CPU template: {0}
    GetCpuTemplate(String),
    /// Invalid kernel command line: {0}
    KernelCmdline(String),
    /// Cannot load command line string: {0}
    LoadCommandline(String),
    /// Cannot start microvm without kernel configuration.
    MissingKernelConfig,
    /// Cannot start microvm without guest mem_size config.
    MissingMemSizeConfig,
    /// No seccomp filter for thread category: {0}
    MissingSeccompFilters(String),
    /// The net device configuration is missing the tap device.
    NetDeviceNotConfigured,
    /// Cannot open the block device backing file: {0}
    OpenBlockDevice(String),
    /// Cannot initialize a MMIO Device or add a device to the MMIO Bus or cmdline: {0}
    RegisterMmioDevice(MmioError),
    /// Cannot restore microvm state: {0}
    RestoreMicrovmState(MicrovmStateError),
    /// Cannot set vm resources: {0}
    SetVmResources(String),
    /// Cannot create the entropy device: {0}
    CreateEntropyDevice(String),
    /// Failed to allocate guest resource: {0}
    AllocateResources(String),
    /// Error starting GDB debug session
    GdbServer(String),
    /// Error cloning Vcpu fds
    VcpuFdCloneError(String),
    /// Error creating Vfio device
    VfioError(String),
    /// Error setting up Vfio PCI device
    VfioPciError(String),
    /// Unknown error
    Unknown,
}

/// Errors of building a microVM from a snapshot.
#[derive(Debug)]
pub enum BuildMicrovmFromSnapshotError {
    /// Failed to create microVM and vCPUs: {0}
    CreateMicrovmAndVcpus(StartMicrovmError),
    /// Could not access KVM: {0}
    KvmAccess(String),
    /// Error configuring the TSC, frequency not present in the given snapshot.
    TscFrequencyNotPresent,
    /// Could not get TSC to check if TSC scaling was required with the snapshot: {0}
    GetTsc(String),
    /// Could not set TSC scaling within the snapshot: {0}
    SetTsc(String),
    /// Failed to restore microVM state: {0}
    RestoreState(String),
    /// Failed to update microVM configuration: {0}
    VmUpdateConfig(String),
    /// Failed to restore MMIO device: {0}
    RestoreMmioDevice(MicrovmStateError),
    /// Failed to emulate MMIO serial: {0}
    EmulateSerialInit(String),
    /// Failed to start vCPUs as no vCPU seccomp filter found.
    MissingVcpuSeccompFilters,
    /// Failed to start vCPUs: {0}
    StartVcpus(String),
    /// Failed to restore vCPUs: {0}
    RestoreVcpus(VcpuError),
    /// Failed to apply VMM secccomp filter as none found.
    MissingVmmSeccompFilters,
    /// Failed to apply VMM secccomp filter: {0}
    SeccompFiltersInternal(String),
    /// Failed to restore ACPI device manager: {0}
    ACPIDeviManager(String),
    /// VMGenID update failed: {0}
    VMGenIDUpdate(String),
}

/// A refused command line argument makes the kernel command line invalid; the error keeps the
/// description of the refusal.
impl From<CmdlineError> for StartMicrovmError {
    fn from(err: CmdlineError) -> (error: StartMicrovmError)
        ensures
            error matches StartMicrovmError::KernelCmdline(text) && text@ == error_text(err),
    {
        StartMicrovmError::KernelCmdline(error_to_string(&err))
    }
}

impl FromSpecImpl<CmdlineError> for StartMicrovmError {
    open spec fn obeys_from_spec() -> bool {
        false
    }

    open spec fn from_spec(err: CmdlineError) -> StartMicrovmError {
        StartMicrovmError::KernelCmdline(choose|text: String| text@ == error_text(err))
    }
}

impl From<MmioError> for StartMicrovmError {
    fn from(err: MmioError) -> (error: StartMicrovmError) {
        StartMicrovmError::RegisterMmioDevice(err)
    }
}

impl FromSpecImpl<MmioError> for StartMicrovmError {
    open spec fn obeys_from_spec() -> bool {
        true
    }

    open spec fn from_spec(err: MmioError) -> StartMicrovmError {
        StartMicrovmError::RegisterMmioDevice(err)
    }
}

impl From<VmmError> for StartMicrovmError {
    fn from(err: VmmError) -> (error: StartMicrovmError) {
        StartMicrovmError::Internal(err)
    }
}

impl FromSpecImpl<VmmError> for StartMicrovmError {
    open spec fn obeys_from_spec() -> bool {
        true
    }

    open spec fn from_spec(err: VmmError) -> StartMicrovmError {
        StartMicrovmError::Internal(err)
    }
}

impl From<StartMicrovmError> for BuildMicrovmFromSnapshotError {
    fn from(err: StartMicrovmError) -> (error: BuildMicrovmFromSnapshotError) {
        BuildMicrovmFromSnapshotError::CreateMicrovmAndVcpus(err)
    }
}

impl FromSpecImpl<StartMicrovmError> for BuildMicrovmFromSnapshotError {
    open spec fn obeys_from_spec() -> bool {
        true
    }

    open spec fn from_spec(err: StartMicrovmError) -> BuildMicrovmFromSnapshotError {
        BuildMicrovmFromSnapshotError::CreateMicrovmAndVcpus(err)
    }
}

impl From<MicrovmStateError> for BuildMicrovmFromSnapshotError {
    fn from(err: MicrovmStateError) -> (error: BuildMicrovmFromSnapshotError) {
        BuildMicrovmFromSnapshotError::RestoreMmioDevice(err)
    }
}

impl FromSpecImpl<MicrovmStateError> for BuildMicrovmFromSnapshotError {
    open spec fn obeys_from_spec() -> bool {
        true
    }

    open spec fn from_spec(err: MicrovmStateError) -> BuildMicrovmFromSnapshotError {
        BuildMicrovmFromSnapshotError::RestoreMmioDevice(err)
    }
}

} // verus!
