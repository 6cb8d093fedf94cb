//! What a microVM is built from.
use crate::layout::ArchLayout;
use linux_loader::cmdline::Cmdline;
use vstd::prelude::*;

verus! {

/// The virtio device type of a block device.
pub const TYPE_BLOCK: u32 = 2;

/// The processor architecture of the machine.
#[derive(Clone, Copy, Debug, PartialEq, Eq, Structural)]
pub enum Arch {
    X86_64,
    Aarch64,
}

/// A virtio device that is to be attached.
#[derive(Clone, Debug)]
pub struct VirtioDevice {
    /// The name of the device.
    pub id: String,
    /// The virtio device type.
    pub device_type: u32,
    /// The number of queues.
    pub queues: usize,
    /// The number of events by which the guest notifies the device of a queue.
    pub queue_events: usize,
}

/// A block device that is to be attached.
#[derive(Clone, Debug)]
pub struct BlockDevice {
    pub device: VirtioDevice,
    /// Whether the guest finds its root file system here.
    pub root_device: bool,
    /// The partition that holds the root file system, where there is one.
    pub partuuid: Option<String>,
    pub read_only: bool,
    /// Whether a process outside the monitor serves the device.
    pub is_vhost_user: bool,
}

/// A device of the host that is passed through to the guest.
#[derive(Clone, Debug)]
pub struct VfioDevice {
    pub path: String,
}

/// The PCI settings of a machine.
#[derive(Clone, Debug)]
pub struct PciConfig {
    pub enabled: bool,
    pub vfio_devices: Option<Vec<VfioDevice>>,
}

/// The kernel that is booted.
pub struct BootConfig {
    pub cmdline: Cmdline,
}

/// The settings of a debugging session.
#[derive(Clone, Copy, Debug, PartialEq, Eq, Structural)]
pub struct GdbConfig {
    /// Whether there is a socket on which to serve a debugger.
    pub socket: bool,
}

/// A contiguous region of guest memory.
#[derive(Clone, Copy, Debug, PartialEq, Eq, Structural)]
pub struct MemoryRegion {
    /// The guest physical address of the region.
    pub start: u64,
    pub len: u64,
    /// Where the region lies in the memory of the monitor.
    pub host_addr: u64,
}

/// The configuration of a microVM.
pub struct VmResources {
    pub arch: Arch,
    pub layout: ArchLayout,
    pub boot_config: Option<BootConfig>,
    pub vcpu_count: u8,
    pub pci_config: Option<PciConfig>,
    pub boot_timer: bool,
    pub balloon: Option<VirtioDevice>,
    pub block: Vec<BlockDevice>,
    pub net: Vec<VirtioDevice>,
    pub vsock: Option<VirtioDevice>,
    pub entropy: Option<VirtioDevice>,
    /// Present where the monitor was built to be debugged.
    pub gdb: Option<GdbConfig>,
}

/// What a snapshot says about the machine that it was taken of.
pub struct SnapshotInfo {
    /// For each saved vCPU, the frequency of its time stamp counter, where it was saved.
    pub vcpu_tsc_khz: Vec<Option<u32>>,
    /// Whether page faults of the guest are served from user space.
    pub has_uffd: bool,
    /// The last address of guest memory.
    pub last_addr: u64,
    /// The regions of guest memory.
    pub regions: Vec<MemoryRegion>,
}

/// Where the state of the new machine comes from.
pub enum Source {
    Boot,
    Snapshot(SnapshotInfo),
}

/// What a build works from.
pub struct BuildInput {
    pub resources: VmResources,
    /// The thread categories for which there is a seccomp filter.
    pub seccomp_filters: Vec<String>,
    pub source: Source,
}

/// One of the virtio devices of a configuration.
#[derive(Clone, Copy, Debug, PartialEq, Eq, Structural)]
pub enum DeviceHandle {
    Balloon,
    Block(usize),
    Net(usize),
    Vsock,
    Entropy,
}

/// A category of threads with a seccomp filter of its own.
#[derive(Clone, Copy, Debug, PartialEq, Eq, Structural)]
pub enum ThreadCategory {
    Vcpu,
    Vmm,
}

impl ThreadCategory {
    /// The name under which the filter of the category is kept.
    pub open spec fn spec_name(self) -> Seq<char> {
        match self {
            ThreadCategory::Vcpu => "vcpu"@,
            ThreadCategory::Vmm => "vmm"@,
        }
    }

    /// The name under which the filter of the category is kept.
    pub fn name(self) -> (name: String)
        ensures
            name@ == self.spec_name(),
    {
        match self {
            ThreadCategory::Vcpu => "vcpu".to_owned(),
            ThreadCategory::Vmm => "vmm".to_owned(),
        }
    }
}

impl BlockDevice {
    /// The argument that names the root file system to the kernel.
    pub open spec fn root_argument(self) -> Seq<char> {
        match self.partuuid {
            Some(partuuid) => "root=PARTUUID="@ + partuuid@,
            None => "root=/dev/vda"@,
        }
    }

    /// The argument that says how the root file system is mounted.
    pub open spec fn access_argument(self) -> Seq<char> {
        if self.read_only {
            "ro"@
        } else {
            "rw"@
        }
    }
}

impl VmResources {
    /// Whether the machine has a PCI bus, `default` where the configuration does not say.
    pub open spec fn spec_pci_enabled(self, default: bool) -> bool {
        match self.pci_config {
            Some(pci) => pci.enabled,
            None => default,
        }
    }

    /// Whether the machine has a PCI bus, `default` where the configuration does not say.
    pub fn pci_enabled(&self, default: bool) -> (enabled: bool)
        ensures
            enabled == self.spec_pci_enabled(default),
    {
        match &self.pci_config {
            Some(pci) => pci.enabled,
            None => default,
        }
    }

    /// Whether devices of the host are passed through, even if the list of them is empty.
    pub open spec fn has_vfio(self) -> bool {
        self.pci_config is Some && self.pci_config->0.vfio_devices is Some
    }

    /// The devices of the host that are passed through.
    pub open spec fn vfio_devices(self) -> Seq<VfioDevice> {
        if self.has_vfio() {
            self.pci_config->0.vfio_devices->0@
        } else {
            seq![]
        }
    }

    /// Whether the configuration has the device.
    pub open spec fn has_device(self, device: DeviceHandle) -> bool {
        match device {
            DeviceHandle::Balloon => self.balloon is Some,
            DeviceHandle::Block(i) => i < self.block@.len(),
            DeviceHandle::Net(i) => i < self.net@.len(),
            DeviceHandle::Vsock => self.vsock is Some,
            DeviceHandle::Entropy => self.entropy is Some,
        }
    }

    /// The device of the configuration that `device` stands for.
    pub open spec fn spec_device(self, device: DeviceHandle) -> VirtioDevice {
        match device {
            DeviceHandle::Balloon => self.balloon->0,
            DeviceHandle::Block(i) => self.block@[i as int].device,
            DeviceHandle::Net(i) => self.net@[i as int],
            DeviceHandle::Vsock => self.vsock->0,
            DeviceHandle::Entropy => self.entropy->0,
        }
    }

    /// The device of the configuration that `device` stands for.
    pub fn device(&self, device: DeviceHandle) -> (found: &VirtioDevice)
        requires
            self.has_device(device),
        ensures
            *found == self.spec_device(device),
    {
        match device {
            DeviceHandle::Balloon => self.balloon.as_ref().unwrap(),
            DeviceHandle::Block(i) => &self.block[i].device,
            DeviceHandle::Net(i) => &self.net[i],
            DeviceHandle::Vsock => self.vsock.as_ref().unwrap(),
            DeviceHandle::Entropy => self.entropy.as_ref().unwrap(),
        }
    }
}

/// `name` is one of `names`.
pub open spec fn is_one_of(name: Seq<char>, names: Seq<String>) -> bool {
    exists|i: int| 0 <= i < names.len() && #[trigger] names[i]@ == name
}

/// Whether there is a seccomp filter for the category among those named.
pub fn has_filter(names: &Vec<String>, category: ThreadCategory) -> (found: bool)
    ensures
        found == is_one_of(category.spec_name(), names@),
{
    let name: String = category.name();
    let mut i: usize = 0;
    while i < names.len()
        invariant
            i <= names@.len(),
            name@ == category.spec_name(),
            forall|j: int| 0 <= j < i ==> (#[trigger] names@[j])@ != name@,
        decreases names@.len() - i,
    {
        if names[i] == name {
            assert(names@[i as int]@ == category.spec_name());
            return true;
        }
        i = i + 1;
    }
    false
}

impl BuildInput {
    /// Whether the machine has a PCI bus: where the configuration does not say, a booted one has
    /// and a restored one has not.
    pub open spec fn spec_pci_enabled(self) -> bool {
        self.resources.spec_pci_enabled(self.source is Boot)
    }

    /// Whether the machine has a PCI bus: where the configuration does not say, a booted one has
    /// and a restored one has not.
    pub fn pci_enabled(&self) -> (enabled: bool)
        ensures
            enabled == self.spec_pci_enabled(),
    {
        match &self.source {
            Source::Boot => self.resources.pci_enabled(true),
            Source::Snapshot(_) => self.resources.pci_enabled(false),
        }
    }
}

/// A machine has a PCI bus as it is configured, and by default where that is not configured, whatever
/// devices it has: two configurations with the same PCI settings have the same answer.
pub proof fn law_bus_is_as_configured(resources: VmResources, other: VmResources, default: bool)
    ensures
        resources.pci_config is None ==> resources.spec_pci_enabled(default) == default,
        resources.pci_config matches Some(pci) ==> resources.spec_pci_enabled(default)
            == pci.enabled,
        resources.pci_config == other.pci_config ==> resources.spec_pci_enabled(default)
            == other.spec_pci_enabled(default),
{
}

/// Where the configuration does not say, a booted machine has a PCI bus and a restored one has not;
/// where it does, both have what it says.
pub proof fn law_bus_by_default(input: BuildInput)
    ensures
        input.resources.pci_config is None ==> input.spec_pci_enabled() == (input.source is Boot),
        input.resources.pci_config matches Some(pci) ==> input.spec_pci_enabled() == pci.enabled,
{
}

/// The virtio devices of a machine are those that are configured, under their positions there.
pub proof fn law_devices_are_those_configured(resources: VmResources, i: usize)
    ensures
        resources.has_device(DeviceHandle::Balloon) == (resources.balloon is Some),
        resources.has_device(DeviceHandle::Vsock) == (resources.vsock is Some),
        resources.has_device(DeviceHandle::Entropy) == (resources.entropy is Some),
        resources.has_device(DeviceHandle::Block(i)) == (i < resources.block@.len()),
        resources.has_device(DeviceHandle::Net(i)) == (i < resources.net@.len()),
        resources.balloon matches Some(device) ==> resources.spec_device(DeviceHandle::Balloon)
            == device,
        resources.vsock matches Some(device) ==> resources.spec_device(DeviceHandle::Vsock)
            == device,
        resources.entropy matches Some(device) ==> resources.spec_device(DeviceHandle::Entropy)
            == device,
        i < resources.block@.len() ==> resources.spec_device(DeviceHandle::Block(i))
            == resources.block@[i as int].device,
        i < resources.net@.len() ==> resources.spec_device(DeviceHandle::Net(i))
            == resources.net@[i as int],
{
}

/// The devices that are passed through are those of the PCI settings, all of them and in their order.
pub proof fn law_passthrough_is_as_configured(resources: VmResources)
    ensures
        resources.has_vfio() <==> exists|pci: PciConfig|
            resources.pci_config == Some(pci) && #[trigger] pci.vfio_devices is Some,
        resources.pci_config matches Some(pci) ==> (pci.vfio_devices matches Some(devices)
            ==> resources.vfio_devices() == devices@),
        !resources.has_vfio() ==> resources.vfio_devices().len() == 0,
{
    if resources.has_vfio() {
        assert(resources.pci_config->0.vfio_devices is Some);
    }
}

/// A category has a filter where and only where its name is among the names, and the names tell the
/// categories apart.
pub proof fn law_filters_go_by_name(names: Seq<String>, name: Seq<char>)
    ensures
        is_one_of(name, names) <==> exists|k: int|
            0 <= k < names.len() && (#[trigger] names[k])@ == name,
        ThreadCategory::Vcpu.spec_name() == "vcpu"@,
        ThreadCategory::Vmm.spec_name() == "vmm"@,
        ThreadCategory::Vcpu.spec_name() != ThreadCategory::Vmm.spec_name(),
{
    reveal_strlit("vcpu");
    reveal_strlit("vmm");
    assert("vcpu"@.len() == 4 && "vmm"@.len() == 3);
}

/// The root argument names the partition where there is one, and the first disk otherwise; the access
/// argument tells read-only and writable devices apart. Nothing else about the device matters.
pub proof fn law_root_arguments_by_device(block: BlockDevice)
    ensures
        block.partuuid matches Some(partuuid) ==> {
            &&& block.root_argument() == "root=PARTUUID="@ + partuuid@
            &&& block.root_argument().skip(14) == partuuid@
        },
        block.partuuid is None ==> block.root_argument() == "root=/dev/vda"@,
        block.read_only ==> block.access_argument() == "ro"@,
        !block.read_only ==> block.access_argument() == "rw"@,
{
    reveal_strlit("root=PARTUUID=");
    if let Some(partuuid) = block.partuuid {
        assert(block.root_argument().skip(14) =~= partuuid@);
    }
}

} // verus!
