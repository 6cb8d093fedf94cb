//! The work that building a microVM consists of.
use crate::resources::{DeviceHandle, MemoryRegion, ThreadCategory};
use linux_loader::cmdline::Cmdline;
use vstd::prelude::*;

verus! {

/// Where the capabilities that KVM is asked for come from.
#[derive(Clone, Copy, Debug, PartialEq, Eq, Structural)]
pub enum Capabilities {
    CpuTemplate,
    Snapshot,
}

/// The kind of region that a PCI base address register maps.
#[derive(Clone, Copy, Debug, PartialEq, Eq, Structural)]
pub enum PciBarRegionType {
    IoRegion,
    Memory32BitRegion,
    Memory64BitRegion,
}

/// A base address register of a PCI device.
#[derive(Clone, Copy, Debug, PartialEq, Eq, Structural)]
pub struct PciBarConfiguration {
    pub addr: u64,
    pub size: u64,
    pub region_type: PciBarRegionType,
}

/// Steps of setting up the serial device.
#[derive(Clone, Copy, Debug, PartialEq, Eq, Structural)]
pub enum SerialAction {
    /// Create the event by which the device interrupts the guest.
    CreateInterruptEvent,
    /// Create the event that tells that the device can take input again.
    CreateKickStdinEvent,
    /// Create the device on the two events, standard input and standard output.
    CreateDevice,
    /// Subscribe the device to the event manager.
    Subscribe,
}

/// Steps of setting up the PCI bus.
#[derive(Clone, Copy, Debug, PartialEq, Eq, Structural)]
pub enum PciSetupAction {
    /// Create the allocator of I/O ports, platform addresses and interrupt lines.
    CreateSystemAllocator {
        io_base: u64,
        io_size: u64,
        platform_base: u64,
        platform_size: u64,
        irq_base: u32,
        irq_count: u32,
    },
    CreateMsiInterruptManager,
    /// Create the allocator of addresses for 32-bit devices.
    CreateMmio32Allocator { base: u64, size: u64 },
    /// Create the allocator of addresses for 64-bit devices.
    CreateMmio64Allocator { base: u64, size: u64 },
    /// Create the segment, whose slots all have the same interrupt line.
    CreateSegment { id: u16, node: u32, irq: u8 },
    /// Put the configuration ports of the bus on the port I/O bus.
    InstallConfigPorts,
}

/// Steps of creating the monitor and its vCPUs.
#[derive(Clone, Copy, Debug, PartialEq, Eq, Structural)]
pub enum VmmAction {
    OpenKvm { capabilities: Capabilities },
    CreateVm,
    CheckMemory,
    InitMemory,
    CreateVcpus { count: u8 },
    CreateResourceAllocator,
    /// Create the MMIO and the ACPI device manager.
    CreateDeviceManagers,
    SetStdoutNonblocking,
    Serial(SerialAction),
    /// Clone the event by which vCPUs exit, for the reset line of the keyboard controller.
    CloneExitEvent,
    CreatePortIoManager,
    Pci(PciSetupAction),
    RegisterPortIoDevices,
    /// Put the parts together.
    AssembleVmm,
}

/// Steps of placing a device on the PCI bus.
#[derive(Clone, Copy, Debug, PartialEq, Eq, Structural)]
pub enum PciAction {
    /// Allocate the base address registers of the device that will sit in slot `device`.
    AllocateBars { device: u32 },
    /// Add the device to the bus in slot `device`.
    AddDevice { device: u32 },
    /// Insert the device in the port I/O bus.
    InsertIoBus { addr: u64, size: u64 },
    /// Insert the device in the MMIO bus.
    InsertMmioBus { addr: u64, size: u64 },
}

/// Steps of attaching a virtio device.
#[derive(Clone, Copy, Debug, PartialEq, Eq, Structural)]
pub enum AttachAction {
    /// Subscribe the device to the event manager.
    Subscribe,
    /// Wrap the device in the MMIO transport and register that, which puts it on the kernel command
    /// line.
    RegisterMmio { is_vhost_user: bool },
    /// Ask the PCI segment for the next free address.
    NextDeviceBdf,
    /// Wrap the device in the PCI transport.
    CreateVirtioPci { msix_num: u16, bdf: u32, use_64bit_bar: bool },
    Pci(PciAction),
    /// Ask the PCI transport where its configuration lies.
    ConfigBarAddress,
    /// Have writes to `addr` trigger the event of the queue.
    RegisterIoevent { queue: usize, addr: u64 },
}

/// Steps of passing a device of the host through to the guest.
#[derive(Clone, Copy, Debug, PartialEq, Eq, Structural)]
pub enum VfioAction {
    /// Ask the PCI bus for the next free device number.
    NextDeviceId,
    /// Create the container on a duplicate of the passthrough device.
    CreateContainer,
    /// Open the device in the container.
    OpenDevice,
    /// Wrap the device for the PCI bus.
    CreateDevice { id: u32, bdf: u32 },
    Pci(PciAction),
    /// Let the device reach a region of guest memory.
    DmaMap { iova: u64, size: u64, user_addr: u64 },
}

/// Steps of attaching the legacy devices of an aarch64 machine.
#[derive(Clone, Copy, Debug, PartialEq, Eq, Structural)]
pub enum LegacyAction {
    SetStdoutNonblocking,
    Serial(SerialAction),
    RegisterSerial,
    /// Put the serial device on the kernel command line.
    AddSerialToCmdline,
    RegisterRtc,
}

/// Steps of attaching the device that tells a guest that it was cloned.
#[derive(Clone, Copy, Debug, PartialEq, Eq, Structural)]
pub enum VmgenidAction {
    Create,
    Attach,
}

/// Steps of restoring a machine from a snapshot.
#[derive(Clone, Copy, Debug, PartialEq, Eq, Structural)]
pub enum RestoreAction {
    /// Ask the first vCPU whether its time stamp counter has to be scaled to the frequency.
    CheckTscScaling { khz: u32 },
    SetTsc { vcpu: usize, khz: u32 },
    RestoreVcpu { index: usize },
    RestoreVm,
    RestoreBootSource,
    RestoreMmioDevices { restored_from_file: bool },
    EmulateSerialInit,
    RestoreAcpiDevices,
    NotifyVmgenid,
}

/// A piece of work that the host does.
#[derive(Clone, Copy, Debug, PartialEq, Eq, Structural)]
pub enum Action {
    AllocateGuestMemory,
    LoadKernel,
    LoadInitrd,
    GetCpuTemplate,
    Vmm(VmmAction),
    AttachDebugInfo,
    CloneVcpuFds,
    AttachBootTimer,
    Attach(DeviceHandle, AttachAction),
    /// Create the KVM device through which VFIO devices are passed to the guest.
    CreatePassthroughDevice,
    /// A step for the VFIO device with the given position in the configuration.
    Vfio(usize, VfioAction),
    Legacy(LegacyAction),
    Vmgenid(VmgenidAction),
    ConfigureSystem,
    StartGdb,
    /// Start the vCPU threads, with their seccomp filter, paused.
    StartVcpus,
    /// Apply the seccomp filter of the monitor to its own thread.
    ApplySeccompFilter,
    /// Subscribe the monitor to the event manager.
    SubscribeVmm,
    /// Let the vCPUs run.
    ResumeVm,
    Restore(RestoreAction),
}

/// A piece of work that is left to do.
#[derive(Clone, Copy, Debug, PartialEq, Eq, Structural)]
pub enum Task {
    /// Work of the host.
    Host(Action),
    /// Put the arguments of a root block device on the kernel command line.
    RootArguments(usize),
    /// Lay out the addresses for devices and plan the PCI bus.
    PlanPci,
    /// Look for a console on the kernel command line and plan the legacy devices.
    PlanLegacyDevices,
    /// Plan to restore each vCPU for which there is a state.
    PlanVcpuRestore,
    /// Make sure that there is a seccomp filter for the threads.
    RequireFilter(ThreadCategory),
}

/// What came of a piece of work of the host.
pub enum Outcome {
    /// It is done, and there is nothing to tell.
    Done,
    GuestMemory { last_addr: u64, regions: Vec<MemoryRegion> },
    /// The number of vCPUs that were created.
    Vcpus(usize),
    /// The address of a device on the PCI bus.
    Bdf(u32),
    /// A device number of the PCI bus.
    DeviceId(u32),
    Bars(Vec<PciBarConfiguration>),
    BarAddress(u64),
    /// The kernel command line with what was added to it.
    Cmdline(Cmdline),
    /// Whether time stamp counters have to be scaled.
    TscScaling(bool),
    /// It failed, with a description of what went wrong.
    Failed(String),
}

} // verus!
