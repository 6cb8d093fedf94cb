use linux_loader::cmdline::Cmdline;
use microvm_builder::admission::{can_begin_build, can_work_on};
use microvm_builder::builder::{
    build_and_boot_microvm, build_microvm, build_microvm_for_boot, build_microvm_from_snapshot,
    snapshot_result, start_result, Build,
};
use microvm_builder::error::{
    BuildMicrovmFromSnapshotError, MicrovmStateError, MmioError, StartMicrovmError, VcpuError,
    VmmError,
};
use microvm_builder::layout::ArchLayout;
use microvm_builder::model::Verdict;
use microvm_builder::resources::{
    Arch, BlockDevice, BootConfig, BuildInput, DeviceHandle, GdbConfig, MemoryRegion, PciConfig,
    SnapshotInfo, Source, ThreadCategory, VfioDevice, VirtioDevice, VmResources, TYPE_BLOCK,
};
use microvm_builder::task::{
    Action, AttachAction, Capabilities, LegacyAction, Outcome, PciAction, PciBarConfiguration,
    PciBarRegionType, PciSetupAction, RestoreAction, SerialAction, Task, VfioAction, VmgenidAction,
    VmmAction,
};
use microvm_builder::vfio::add_vfio_devices;
use microvm_builder::virtio::{
    attach_balloon_device, attach_block_devices, attach_entropy_device, attach_net_devices,
    attach_unixsock_vsock_device,
};
use microvm_builder::vmm::attach_boot_timer_device;
use vm_memory::GuestAddress;

const TYPE_NET: u32 = 1;
const TYPE_RNG: u32 = 4;
const TYPE_BALLOON: u32 = 5;
const TYPE_VSOCK: u32 = 19;

const DEFAULT_KERNEL_CMDLINE: &str = "reboot=k panic=1 pci=off nomodule 8250.nr_uarts=0 \
     i8042.noaux i8042.nomux i8042.nopnp i8042.dumbkbd";
const CMDLINE_MAX_SIZE: usize = 2048;

const LAST_ADDR: u64 = (128 << 20) - 1;

/// Stands in for the host of a build: keeps what it was asked for and makes up the rest.
struct Host {
    log: Vec<Action>,
    subscribers: Vec<String>,
    mmio_devices: Vec<(u32, String)>,
    has_boot_timer: bool,
    next_addr: u64,
    next_irq: u32,
    next_slot: u32,
    bars: Vec<PciBarConfiguration>,
    tsc_scaling: bool,
    regions: Vec<MemoryRegion>,
    fails_at: Option<Action>,
}

impl Host {
    fn new() -> Host {
        Host {
            log: Vec::new(),
            subscribers: Vec::new(),
            mmio_devices: Vec::new(),
            has_boot_timer: false,
            next_addr: 0xd000_0000,
            next_irq: 5,
            next_slot: 1,
            bars: Vec::new(),
            tsc_scaling: true,
            regions: vec![MemoryRegion { start: 0, len: 128 << 20, host_addr: 0x7f00_0000_0000 }],
            fails_at: None,
        }
    }

    fn failing_at(action: Action) -> Host {
        let mut host = Host::new();
        host.fails_at = Some(action);
        host
    }

    fn has_device(&self, device_type: u32, id: &str) -> bool {
        self.mmio_devices.iter().any(|(t, i)| *t == device_type && i == id)
    }

    fn perform(&mut self, build: &Build, action: Action) -> Outcome {
        self.log.push(action);
        if self.fails_at == Some(action) {
            return Outcome::Failed("no such luck".to_string());
        }
        match action {
            Action::AllocateGuestMemory => {
                Outcome::GuestMemory { last_addr: LAST_ADDR, regions: self.regions.clone() }
            }
            Action::Vmm(VmmAction::CreateVcpus { count }) => Outcome::Vcpus(count as usize),
            Action::AttachBootTimer => {
                self.has_boot_timer = true;
                Outcome::Done
            }
            Action::Attach(device, action) => self.attach(build, device, action),
            Action::Vfio(_, VfioAction::NextDeviceId) => {
                self.next_slot += 1;
                Outcome::DeviceId(self.next_slot - 1)
            }
            Action::Vfio(_, VfioAction::Pci(PciAction::AllocateBars { .. })) => {
                Outcome::Bars(self.bars.clone())
            }
            Action::Legacy(LegacyAction::AddSerialToCmdline) => {
                let mut cmdline = build.cmdline().unwrap().clone();
                cmdline.insert_str("earlycon=uart,mmio,0x40001000").unwrap();
                Outcome::Cmdline(cmdline)
            }
            Action::Restore(RestoreAction::CheckTscScaling { .. }) => {
                Outcome::TscScaling(self.tsc_scaling)
            }
            _ => Outcome::Done,
        }
    }

    fn attach(&mut self, build: &Build, device: DeviceHandle, action: AttachAction) -> Outcome {
        let info = build.input().resources.device(device);
        match action {
            AttachAction::Subscribe => {
                self.subscribers.push(info.id.clone());
                Outcome::Done
            }
            AttachAction::RegisterMmio { .. } => {
                let mut cmdline = build.cmdline().unwrap().clone();
                let added = cmdline.add_virtio_mmio_device(
                    0x1000,
                    GuestAddress(self.next_addr),
                    self.next_irq,
                    None,
                );
                if let Err(err) = added {
                    return Outcome::Failed(err.to_string());
                }
                self.next_addr += 0x1000;
                self.next_irq += 1;
                self.mmio_devices.push((info.device_type, info.id.clone()));
                Outcome::Cmdline(cmdline)
            }
            AttachAction::NextDeviceBdf => {
                self.next_slot += 1;
                Outcome::Bdf((self.next_slot - 1) << 3)
            }
            AttachAction::Pci(PciAction::AllocateBars { .. }) => Outcome::Bars(self.bars.clone()),
            AttachAction::ConfigBarAddress => Outcome::BarAddress(0x1_0000_0000),
            _ => Outcome::Done,
        }
    }

    fn run(&mut self, build: &mut Build) {
        while let Some(action) = build.action() {
            let outcome = self.perform(build, action);
            assert!(build.accepts(&outcome), "{:?}", action);
            build.step(outcome);
        }
    }

    fn position(&self, action: Action) -> usize {
        self.log.iter().position(|asked| *asked == action).unwrap()
    }
}

fn default_kernel_cmdline() -> Cmdline {
    Cmdline::try_from(DEFAULT_KERNEL_CMDLINE, CMDLINE_MAX_SIZE).unwrap()
}

fn cmdline_text(cmdline: &Cmdline) -> String {
    cmdline.as_cstring().unwrap().into_string().unwrap()
}

fn cmdline_contains(cmdline: &Cmdline, slug: &str) -> bool {
    cmdline_text(cmdline).contains(slug)
}

fn virtio(id: &str, device_type: u32, queues: usize) -> VirtioDevice {
    VirtioDevice { id: id.to_string(), device_type, queues, queue_events: queues }
}

fn block(id: &str, root_device: bool, partuuid: Option<&str>, read_only: bool) -> BlockDevice {
    BlockDevice {
        device: virtio(id, TYPE_BLOCK, 1),
        root_device,
        partuuid: partuuid.map(|p| p.to_string()),
        read_only,
        is_vhost_user: false,
    }
}

fn default_resources(pci: bool) -> VmResources {
    VmResources {
        arch: Arch::X86_64,
        layout: ArchLayout {
            mem_32bit_reserved_start: 0xc000_0000,
            mem_32bit_devices_start: 0xc000_0000,
            mem_32bit_devices_size: 0x1000_0000,
        },
        boot_config: Some(BootConfig { cmdline: default_kernel_cmdline() }),
        vcpu_count: 2,
        pci_config: Some(PciConfig { enabled: pci, vfio_devices: None }),
        boot_timer: false,
        balloon: None,
        block: Vec::new(),
        net: Vec::new(),
        vsock: None,
        entropy: None,
        gdb: None,
    }
}

fn filters() -> Vec<String> {
    vec!["vmm".to_string(), "api".to_string(), "vcpu".to_string()]
}

fn boot_input(resources: VmResources) -> BuildInput {
    BuildInput { resources, seccomp_filters: filters(), source: Source::Boot }
}

fn snapshot(tsc: Option<u32>, states: usize, has_uffd: bool) -> SnapshotInfo {
    SnapshotInfo {
        vcpu_tsc_khz: vec![tsc; states],
        has_uffd,
        last_addr: LAST_ADDR,
        regions: vec![MemoryRegion { start: 0, len: 128 << 20, host_addr: 0x7d00_0000_0000 }],
    }
}

fn attach(resources: VmResources, tasks: Vec<Task>) -> (Build, Host) {
    let input = boot_input(resources);
    assert!(can_begin_build(&input, &tasks));
    let mut build = build_microvm(input, tasks);
    let mut host = Host::new();
    host.run(&mut build);
    assert!(matches!(build.verdict(), Verdict::Built));
    (build, host)
}

fn insert_block_devices(blocks: Vec<BlockDevice>) -> (Build, Host) {
    let mut resources = default_resources(false);
    resources.block = blocks;
    let tasks = attach_block_devices(&resources.block, false);
    attach(resources, tasks)
}

fn start_error_of(resources: VmResources, action: Action) -> StartMicrovmError {
    let mut build = build_and_boot_microvm(resources, filters()).unwrap();
    let mut host = Host::failing_at(action);
    host.bars = vec![memory_bar(0x1000_0000)];
    host.run(&mut build);
    assert_eq!(host.log.last(), Some(&action));
    let (_, verdict) = build.into_parts();
    start_result(verdict).unwrap().unwrap_err()
}

fn snapshot_error_of(action: Action) -> BuildMicrovmFromSnapshotError {
    let mut build = build_microvm_from_snapshot(
        default_resources(false),
        filters(),
        snapshot(Some(2_400_000), 2, false),
    );
    let mut host = Host::failing_at(action);
    host.run(&mut build);
    assert_eq!(host.log.last(), Some(&action));
    let (_, verdict) = build.into_parts();
    snapshot_result(verdict).unwrap().unwrap_err()
}

fn memory_bar(addr: u64) -> PciBarConfiguration {
    PciBarConfiguration { addr, size: 0x8_0000, region_type: PciBarRegionType::Memory64BitRegion }
}

#[test]
fn test_attach_net_devices() {
    let mut resources = default_resources(false);
    resources.net = vec![virtio("netif", TYPE_NET, 2)];
    let tasks = attach_net_devices(&resources.net, false);
    let (_, host) = attach(resources, tasks);
    assert!(host.has_device(TYPE_NET, "netif"));
    assert_eq!(host.mmio_devices.len(), 1);
}

#[test]
fn test_attach_block_devices() {
    // Root block device is not specified through PARTUUID.
    {
        let (build, host) = insert_block_devices(vec![block("root", true, None, true)]);
        assert!(cmdline_contains(build.cmdline().unwrap(), "root=/dev/vda ro"));
        assert!(host.has_device(TYPE_BLOCK, "root"));
    }

    // Root block device is specified through PARTUUID.
    {
        let blocks = vec![block("root", true, Some("0eaa91a0-01"), false)];
        let (build, host) = insert_block_devices(blocks);
        assert!(cmdline_contains(build.cmdline().unwrap(), "root=PARTUUID=0eaa91a0-01 rw"));
        assert!(host.has_device(TYPE_BLOCK, "root"));
    }

    // Root block device is not added at all.
    {
        let blocks = vec![block("non_root", false, Some("0eaa91a0-01"), false)];
        let (build, host) = insert_block_devices(blocks);
        assert!(!cmdline_contains(build.cmdline().unwrap(), "root=PARTUUID="));
        assert!(!cmdline_contains(build.cmdline().unwrap(), "root=/dev/vda"));
        assert!(host.has_device(TYPE_BLOCK, "non_root"));
    }

    // Rw root block device and other rw and ro drives.
    {
        let blocks = vec![
            block("root", true, Some("0eaa91a0-01"), false),
            block("secondary", false, None, true),
            block("third", false, None, false),
        ];
        let (build, host) = insert_block_devices(blocks);
        assert!(cmdline_contains(build.cmdline().unwrap(), "root=PARTUUID=0eaa91a0-01 rw"));
        assert!(host.has_device(TYPE_BLOCK, "root"));
        assert!(host.has_device(TYPE_BLOCK, "secondary"));
        assert!(host.has_device(TYPE_BLOCK, "third"));

        // Check if these three block devices are inserted in kernel_cmdline.
        assert!(cmdline_contains(
            build.cmdline().unwrap(),
            "virtio_mmio.device=4K@0xd0000000:5 virtio_mmio.device=4K@0xd0001000:6 \
             virtio_mmio.device=4K@0xd0002000:7"
        ));
    }

    // Root block device is rw.
    {
        let (build, host) = insert_block_devices(vec![block("root", true, None, false)]);
        assert!(cmdline_contains(build.cmdline().unwrap(), "root=/dev/vda rw"));
        assert!(host.has_device(TYPE_BLOCK, "root"));
    }

    // Root block device is ro, with PARTUUID.
    {
        let blocks = vec![block("root", true, Some("0eaa91a0-01"), true)];
        let (build, host) = insert_block_devices(blocks);
        assert!(cmdline_contains(build.cmdline().unwrap(), "root=PARTUUID=0eaa91a0-01 ro"));
        assert!(host.has_device(TYPE_BLOCK, "root"));
    }

    // Root block device is rw with flush enabled. How the device caches is its own
    // affair: the build is not told.
    {
        let (build, host) = insert_block_devices(vec![block("root", true, None, false)]);
        assert!(cmdline_contains(build.cmdline().unwrap(), "root=/dev/vda rw"));
        assert!(host.has_device(TYPE_BLOCK, "root"));
    }
}

#[test]
fn test_attach_boot_timer_device() {
    let (_, host) = attach(default_resources(false), vec![attach_boot_timer_device()]);
    assert!(host.has_boot_timer);
}

#[test]
fn test_attach_balloon_device() {
    let mut resources = default_resources(false);
    resources.balloon = Some(virtio("balloon", TYPE_BALLOON, 2));
    let (build, host) = attach(resources, attach_balloon_device(false));
    assert!(host.has_device(TYPE_BALLOON, "balloon"));
    assert!(cmdline_contains(build.cmdline().unwrap(), "virtio_mmio.device=4K@0xd0000000:5"));
}

#[test]
fn test_attach_entropy_device() {
    let mut resources = default_resources(false);
    resources.entropy = Some(virtio("rng", TYPE_RNG, 1));
    let (build, host) = attach(resources, attach_entropy_device(false));
    assert!(host.has_device(TYPE_RNG, "rng"));
    assert!(cmdline_contains(build.cmdline().unwrap(), "virtio_mmio.device=4K@0xd0000000:5"));
}

#[test]
fn test_attach_vsock_device() {
    let mut resources = default_resources(false);
    resources.vsock = Some(virtio("vsock", TYPE_VSOCK, 3));
    let (build, host) = attach(resources, attach_unixsock_vsock_device(false));
    assert!(host.has_device(TYPE_VSOCK, "vsock"));
    assert!(cmdline_contains(build.cmdline().unwrap(), "virtio_mmio.device=4K@0xd0000000:5"));
}

#[test]
fn smallest_boot_asks_in_order() {
    let mut build = build_microvm_for_boot(default_resources(false), filters()).unwrap();
    let mut host = Host::new();
    host.run(&mut build);
    assert_eq!(
        host.log,
        vec![
            Action::AllocateGuestMemory,
            Action::LoadKernel,
            Action::LoadInitrd,
            Action::GetCpuTemplate,
            Action::Vmm(VmmAction::OpenKvm { capabilities: Capabilities::CpuTemplate }),
            Action::Vmm(VmmAction::CreateVm),
            Action::Vmm(VmmAction::CheckMemory),
            Action::Vmm(VmmAction::InitMemory),
            Action::Vmm(VmmAction::CreateVcpus { count: 2 }),
            Action::Vmm(VmmAction::CreateResourceAllocator),
            Action::Vmm(VmmAction::CreateDeviceManagers),
            Action::Vmm(VmmAction::SetStdoutNonblocking),
            Action::Vmm(VmmAction::Serial(SerialAction::CreateInterruptEvent)),
            Action::Vmm(VmmAction::Serial(SerialAction::CreateKickStdinEvent)),
            Action::Vmm(VmmAction::Serial(SerialAction::CreateDevice)),
            Action::Vmm(VmmAction::Serial(SerialAction::Subscribe)),
            Action::Vmm(VmmAction::CloneExitEvent),
            Action::Vmm(VmmAction::CreatePortIoManager),
            Action::Vmm(VmmAction::RegisterPortIoDevices),
            Action::Vmm(VmmAction::AssembleVmm),
            Action::Vmgenid(VmgenidAction::Create),
            Action::Vmgenid(VmgenidAction::Attach),
            Action::ConfigureSystem,
            Action::StartVcpus,
            Action::ApplySeccompFilter,
            Action::SubscribeVmm,
        ]
    );
    assert!(matches!(build.verdict(), Verdict::Built));
    assert_eq!(cmdline_text(build.cmdline().unwrap()), DEFAULT_KERNEL_CMDLINE);
    let (_, verdict) = build.into_parts();
    assert!(matches!(start_result(verdict), Some(Ok(()))));
}

fn full_resources(pci: bool) -> VmResources {
    let mut resources = default_resources(pci);
    resources.boot_timer = true;
    resources.balloon = Some(virtio("balloon", TYPE_BALLOON, 2));
    resources.block = vec![block("root", true, None, true), block("data", false, None, false)];
    resources.net = vec![virtio("eth0", TYPE_NET, 2), virtio("eth1", TYPE_NET, 2)];
    resources.vsock = Some(virtio("vsock", TYPE_VSOCK, 3));
    resources.entropy = Some(virtio("rng", TYPE_RNG, 1));
    resources
}

#[test]
fn devices_are_attached_in_order_over_mmio() {
    let mut build = build_microvm_for_boot(full_resources(false), filters()).unwrap();
    let mut host = Host::new();
    host.run(&mut build);
    assert!(matches!(build.verdict(), Verdict::Built));
    let ids: Vec<&str> = host.mmio_devices.iter().map(|(_, id)| id.as_str()).collect();
    assert_eq!(ids, vec!["balloon", "root", "data", "eth0", "eth1", "vsock", "rng"]);
    assert_eq!(host.subscribers, ids);
    // The root arguments stand before the device that brings them.
    assert!(cmdline_contains(
        build.cmdline().unwrap(),
        "virtio_mmio.device=4K@0xd0000000:5 root=/dev/vda ro virtio_mmio.device=4K@0xd0001000:6 \
         virtio_mmio.device=4K@0xd0002000:7"
    ));
    // The boot timer comes before every other device.
    assert_eq!(
        host.position(Action::AttachBootTimer) + 1,
        host.position(Action::Attach(DeviceHandle::Balloon, AttachAction::Subscribe))
    );
    assert!(!host.log.iter().any(|a| matches!(a, Action::Vmm(VmmAction::Pci(_)))));
}

#[test]
fn configured_cmdline_is_not_polluted() {
    let resources = full_resources(false);
    let mut build = build_microvm_for_boot(resources, filters()).unwrap();
    let mut host = Host::failing_at(Action::ConfigureSystem);
    host.run(&mut build);
    assert!(cmdline_contains(build.cmdline().unwrap(), "virtio_mmio.device"));
    let (input, verdict) = build.into_parts();
    assert!(matches!(
        start_result(verdict),
        Some(Err(StartMicrovmError::ConfigureSystem(cause))) if cause == "no such luck"
    ));
    let configured = input.resources.boot_config.unwrap().cmdline;
    assert_eq!(cmdline_text(&configured), DEFAULT_KERNEL_CMDLINE);
}

#[test]
fn bus_is_laid_out_behind_guest_memory() {
    let mut build = build_microvm_for_boot(default_resources(true), filters()).unwrap();
    let mut host = Host::new();
    host.run(&mut build);
    let setup: Vec<Action> = host
        .log
        .iter()
        .copied()
        .filter(|a| matches!(a, Action::Vmm(VmmAction::Pci(_))))
        .collect();
    assert_eq!(
        setup,
        vec![
            Action::Vmm(VmmAction::Pci(PciSetupAction::CreateSystemAllocator {
                io_base: 0,
                io_size: 0x1_0000,
                platform_base: 0x3fff_ffef_0000,
                platform_size: 0x10_0000,
                irq_base: 5,
                irq_count: 19,
            })),
            Action::Vmm(VmmAction::Pci(PciSetupAction::CreateMsiInterruptManager)),
            Action::Vmm(VmmAction::Pci(PciSetupAction::CreateMmio32Allocator {
                base: 0xc000_0000,
                size: 0x1000_0000,
            })),
            Action::Vmm(VmmAction::Pci(PciSetupAction::CreateMmio64Allocator {
                base: 0x1_0000_0000,
                size: 0x3fff_ffef_0000 - 0x1_0000_0000,
            })),
            Action::Vmm(VmmAction::Pci(PciSetupAction::CreateSegment {
                id: 0,
                node: 0,
                irq: 23,
            })),
            Action::Vmm(VmmAction::Pci(PciSetupAction::InstallConfigPorts)),
        ]
    );
    assert!(
        host.position(Action::Vmm(VmmAction::CreatePortIoManager))
            < host.position(Action::Vmm(VmmAction::Pci(PciSetupAction::CreateMsiInterruptManager)))
    );
}

#[test]
fn bus_is_there_unless_configured_otherwise_when_booting() {
    let mut resources = default_resources(false);
    resources.pci_config = None;
    let mut build = build_microvm_for_boot(resources, filters()).unwrap();
    let mut host = Host::new();
    host.run(&mut build);
    assert!(host.log.iter().any(|a| matches!(a, Action::Vmm(VmmAction::Pci(_)))));

    let mut resources = default_resources(false);
    resources.pci_config = None;
    let mut build =
        build_microvm_from_snapshot(resources, filters(), snapshot(None, 1, false));
    let mut host = Host::new();
    host.run(&mut build);
    assert!(!host.log.iter().any(|a| matches!(a, Action::Vmm(VmmAction::Pci(_)))));
}

#[test]
fn virtio_device_is_placed_on_the_bus() {
    let mut resources = default_resources(true);
    resources.vsock = Some(virtio("vsock", TYPE_VSOCK, 3));
    resources.block = vec![block("root", true, None, true)];
    let mut build = build_microvm_for_boot(resources, filters()).unwrap();
    let mut host = Host::new();
    host.bars = vec![
        memory_bar(0x1_0000_0000),
        PciBarConfiguration { addr: 0xc00, size: 4, region_type: PciBarRegionType::IoRegion },
    ];
    host.run(&mut build);
    let of = |device: DeviceHandle| -> Vec<AttachAction> {
        host.log
            .iter()
            .filter_map(|a| match a {
                Action::Attach(d, action) if *d == device => Some(*action),
                _ => None,
            })
            .collect()
    };
    assert_eq!(
        of(DeviceHandle::Vsock),
        vec![
            AttachAction::Subscribe,
            AttachAction::NextDeviceBdf,
            AttachAction::CreateVirtioPci { msix_num: 4, bdf: 16, use_64bit_bar: true },
            AttachAction::Pci(PciAction::AllocateBars { device: 2 }),
            AttachAction::Pci(PciAction::AddDevice { device: 2 }),
            AttachAction::Pci(PciAction::InsertMmioBus { addr: 0x1_0000_0000, size: 0x8_0000 }),
            AttachAction::Pci(PciAction::InsertIoBus { addr: 0xc00, size: 4 }),
            AttachAction::ConfigBarAddress,
            AttachAction::RegisterIoevent { queue: 0, addr: 0x1_0000_6000 },
            AttachAction::RegisterIoevent { queue: 1, addr: 0x1_0000_6004 },
            AttachAction::RegisterIoevent { queue: 2, addr: 0x1_0000_6008 },
        ]
    );
    // A block device gets a 32-bit base address register, and its arguments even on the bus.
    assert_eq!(
        of(DeviceHandle::Block(0))[2],
        AttachAction::CreateVirtioPci { msix_num: 2, bdf: 8, use_64bit_bar: false }
    );
    let text = format!("{} root=/dev/vda ro", DEFAULT_KERNEL_CMDLINE);
    assert_eq!(cmdline_text(build.cmdline().unwrap()), text);
    assert!(host.mmio_devices.is_empty());
}

#[test]
fn host_devices_are_passed_through() {
    let mut resources = default_resources(true);
    resources.pci_config = Some(PciConfig {
        enabled: true,
        vfio_devices: Some(vec![VfioDevice { path: "/sys/bus/pci/devices/0000:00:04.0".to_string() }]),
    });
    let mut build = build_microvm_for_boot(resources, filters()).unwrap();
    let mut host = Host::new();
    host.next_slot = 4;
    host.bars = vec![memory_bar(0x2_0000_0000)];
    host.regions = vec![
        MemoryRegion { start: 0, len: 0xc000_0000, host_addr: 0x7f00_0000_0000 },
        MemoryRegion { start: 0x1_0000_0000, len: 0x4000_0000, host_addr: 0x7e00_0000_0000 },
    ];
    host.run(&mut build);
    let start = host.position(Action::CreatePassthroughDevice);
    assert_eq!(
        host.log[start..start + 10].to_vec(),
        vec![
            Action::CreatePassthroughDevice,
            Action::Vfio(0, VfioAction::NextDeviceId),
            Action::Vfio(0, VfioAction::CreateContainer),
            Action::Vfio(0, VfioAction::OpenDevice),
            Action::Vfio(0, VfioAction::CreateDevice { id: 4, bdf: 32 }),
            Action::Vfio(0, VfioAction::Pci(PciAction::AllocateBars { device: 4 })),
            Action::Vfio(0, VfioAction::Pci(PciAction::AddDevice { device: 4 })),
            Action::Vfio(
                0,
                VfioAction::Pci(PciAction::InsertMmioBus { addr: 0x2_0000_0000, size: 0x8_0000 })
            ),
            Action::Vfio(
                0,
                VfioAction::DmaMap { iova: 0, size: 0xc000_0000, user_addr: 0x7f00_0000_0000 }
            ),
            Action::Vfio(
                0,
                VfioAction::DmaMap {
                    iova: 0x1_0000_0000,
                    size: 0x4000_0000,
                    user_addr: 0x7e00_0000_0000,
                }
            ),
        ]
    );
    assert_eq!(host.log[start + 10], Action::Vmgenid(VmgenidAction::Create));
}

#[test]
fn empty_passthrough_list_creates_the_shared_device_only() {
    let mut resources = default_resources(false);
    resources.pci_config = Some(PciConfig { enabled: false, vfio_devices: Some(Vec::new()) });
    let mut build = build_microvm_for_boot(resources, filters()).unwrap();
    let mut host = Host::new();
    host.run(&mut build);
    let start = host.position(Action::CreatePassthroughDevice);
    assert_eq!(host.log[start + 1], Action::Vmgenid(VmgenidAction::Create));
}

fn passthrough_without_a_bus() -> VmResources {
    let mut resources = default_resources(false);
    let devices = vec![VfioDevice { path: "/sys/bus/pci/devices/0000:00:04.0".to_string() }];
    resources.pci_config = Some(PciConfig { enabled: false, vfio_devices: Some(devices) });
    resources
}

/// Runs a build until it asks for the action.
fn run_until(build: &mut Build, host: &mut Host, wanted: Action) {
    while build.action() != Some(wanted) {
        let outcome = host.perform(build, build.action().unwrap());
        assert!(build.accepts(&outcome));
        build.step(outcome);
    }
}

#[test]
fn passthrough_without_a_bus_gets_no_number() {
    let mut build = build_microvm_for_boot(passthrough_without_a_bus(), filters()).unwrap();
    let mut host = Host::new();
    run_until(&mut build, &mut host, Action::Vfio(0, VfioAction::NextDeviceId));
    assert!(!build.accepts(&Outcome::DeviceId(1)));
    assert!(!build.accepts(&Outcome::Done));
    assert!(!build.accepts(&Outcome::Failed("no bus".to_string())));

    // What fails before that is told as it would be with a bus.
    let error = start_error_of(passthrough_without_a_bus(), Action::LoadKernel);
    assert!(matches!(error, StartMicrovmError::ConfigureSystem(_)));
}

#[test]
fn queues_must_be_countable() {
    let mut resources = full_resources(true);
    resources.net[1].queues = usize::MAX;
    let mut build = build_microvm_for_boot(resources, filters()).unwrap();
    let mut host = Host::new();
    let wanted = Action::Attach(DeviceHandle::Net(1), AttachAction::NextDeviceBdf);
    run_until(&mut build, &mut host, wanted);
    assert!(!build.accepts(&Outcome::Bdf(8)));
    assert!(build.accepts(&Outcome::Failed("bus is full".to_string())));
}

#[test]
fn snapshot_without_a_vcpu_is_not_restored_on_x86_64() {
    let info = snapshot(None, 0, false);
    let mut build = build_microvm_from_snapshot(default_resources(false), filters(), info);
    let mut host = Host::new();
    run_until(&mut build, &mut host, Action::Vmm(VmmAction::AssembleVmm));
    assert!(!build.accepts(&Outcome::Done));
}

#[test]
fn debugger_is_served_where_there_is_a_socket() {
    let mut resources = default_resources(false);
    resources.gdb = Some(GdbConfig { socket: true });
    let mut build = build_microvm_for_boot(resources, filters()).unwrap();
    let mut host = Host::new();
    host.run(&mut build);
    let assembled = host.position(Action::Vmm(VmmAction::AssembleVmm));
    assert_eq!(host.log[assembled + 1], Action::AttachDebugInfo);
    assert_eq!(host.log[assembled + 2], Action::CloneVcpuFds);
    assert_eq!(host.position(Action::ConfigureSystem) + 1, host.position(Action::StartGdb));

    let mut resources = default_resources(false);
    resources.gdb = Some(GdbConfig { socket: false });
    let mut build = build_microvm_for_boot(resources, filters()).unwrap();
    let mut host = Host::new();
    host.run(&mut build);
    assert!(host.log.contains(&Action::CloneVcpuFds));
    assert!(!host.log.contains(&Action::StartGdb));
}

#[test]
fn aarch64_has_a_serial_device_where_there_is_a_console() {
    let mut resources = default_resources(false);
    resources.arch = Arch::Aarch64;
    let cmdline = Cmdline::try_from("console=ttyS0 reboot=k", 64).unwrap();
    resources.boot_config = Some(BootConfig { cmdline });
    let mut build = build_microvm_for_boot(resources, filters()).unwrap();
    let mut host = Host::new();
    host.run(&mut build);
    let legacy: Vec<Action> =
        host.log.iter().copied().filter(|a| matches!(a, Action::Legacy(_))).collect();
    assert_eq!(
        legacy,
        vec![
            Action::Legacy(LegacyAction::SetStdoutNonblocking),
            Action::Legacy(LegacyAction::Serial(SerialAction::CreateInterruptEvent)),
            Action::Legacy(LegacyAction::Serial(SerialAction::CreateKickStdinEvent)),
            Action::Legacy(LegacyAction::Serial(SerialAction::CreateDevice)),
            Action::Legacy(LegacyAction::Serial(SerialAction::Subscribe)),
            Action::Legacy(LegacyAction::RegisterSerial),
            Action::Legacy(LegacyAction::AddSerialToCmdline),
            Action::Legacy(LegacyAction::RegisterRtc),
        ]
    );
    assert_eq!(
        cmdline_text(build.cmdline().unwrap()),
        "console=ttyS0 reboot=k earlycon=uart,mmio,0x40001000"
    );
    assert!(!host.log.contains(&Action::Vmm(VmmAction::CreatePortIoManager)));

    let mut resources = default_resources(false);
    resources.arch = Arch::Aarch64;
    let mut build = build_microvm_for_boot(resources, filters()).unwrap();
    let mut host = Host::new();
    host.run(&mut build);
    let legacy: Vec<Action> =
        host.log.iter().copied().filter(|a| matches!(a, Action::Legacy(_))).collect();
    assert_eq!(legacy, vec![Action::Legacy(LegacyAction::RegisterRtc)]);
}

#[test]
fn unreadable_cmdline_ends_an_aarch64_boot() {
    let mut resources = default_resources(false);
    resources.arch = Arch::Aarch64;
    let mut cmdline = Cmdline::new(64).unwrap();
    cmdline.insert_init_args("single").unwrap();
    resources.boot_config = Some(BootConfig { cmdline });
    let mut build = build_microvm_for_boot(resources, filters()).unwrap();
    let mut host = Host::new();
    host.run(&mut build);
    assert_eq!(host.log.last(), Some(&Action::Vmm(VmmAction::AssembleVmm)));
    let (_, verdict) = build.into_parts();
    assert!(matches!(
        start_result(verdict),
        Some(Err(StartMicrovmError::Internal(VmmError::Cmdline)))
    ));
}

#[test]
fn machine_that_boots_to_run_is_resumed_in_the_end() {
    let mut build = build_and_boot_microvm(full_resources(true), filters()).unwrap();
    let mut host = Host::new();
    host.run(&mut build);
    assert!(matches!(build.verdict(), Verdict::Built));
    let end = host.log.len();
    assert_eq!(
        host.log[end - 4..].to_vec(),
        vec![
            Action::StartVcpus,
            Action::ApplySeccompFilter,
            Action::SubscribeVmm,
            Action::ResumeVm,
        ]
    );

    let mut build = build_microvm_for_boot(full_resources(true), filters()).unwrap();
    let mut host = Host::new();
    host.run(&mut build);
    assert!(!host.log.contains(&Action::ResumeVm));
}

#[test]
fn nothing_boots_without_a_kernel() {
    let mut resources = default_resources(false);
    resources.boot_config = None;
    let result = build_microvm_for_boot(resources, filters());
    assert!(matches!(result, Err(StartMicrovmError::MissingKernelConfig)));
    let mut resources = default_resources(false);
    resources.boot_config = None;
    let result = build_and_boot_microvm(resources, filters());
    assert!(matches!(result, Err(StartMicrovmError::MissingKernelConfig)));

    // The kernel is missed first, whatever else is wrong.
    let mut resources = passthrough_without_a_bus();
    resources.boot_config = None;
    let result = build_microvm_for_boot(resources, filters());
    assert!(matches!(result, Err(StartMicrovmError::MissingKernelConfig)));
    let mut resources = passthrough_without_a_bus();
    resources.boot_config = None;
    let result = build_and_boot_microvm(resources, filters());
    assert!(matches!(result, Err(StartMicrovmError::MissingKernelConfig)));
}

#[test]
fn root_arguments_stand_in_the_order_of_the_devices() {
    let blocks = || {
        vec![
            block("a", true, None, true),
            block("b", false, Some("ignored"), true),
            block("c", true, Some("0eaa91a0-01"), false),
        ]
    };
    let mut resources = default_resources(true);
    resources.block = blocks();
    let mut build = build_microvm_for_boot(resources, filters()).unwrap();
    Host::new().run(&mut build);
    let roots = "root=/dev/vda ro root=PARTUUID=0eaa91a0-01 rw";
    assert_eq!(
        cmdline_text(build.cmdline().unwrap()),
        format!("{} {}", DEFAULT_KERNEL_CMDLINE, roots)
    );

    let mut resources = default_resources(false);
    resources.block = blocks();
    let mut build = build_microvm_for_boot(resources, filters()).unwrap();
    Host::new().run(&mut build);
    assert_eq!(
        cmdline_text(build.cmdline().unwrap()),
        format!(
            "{} root=/dev/vda ro virtio_mmio.device=4K@0xd0000000:5 \
             virtio_mmio.device=4K@0xd0001000:6 root=PARTUUID=0eaa91a0-01 rw \
             virtio_mmio.device=4K@0xd0002000:7",
            DEFAULT_KERNEL_CMDLINE
        )
    );
}

#[test]
fn monitor_is_plugged_in_once() {
    let plugged_in = |host: &Host| {
        host.log.iter().filter(|action| **action == Action::SubscribeVmm).count()
    };
    let mut build = build_microvm_for_boot(full_resources(true), filters()).unwrap();
    let mut host = Host::new();
    host.run(&mut build);
    assert_eq!(plugged_in(&host), 1);
    assert_eq!(host.log.last(), Some(&Action::SubscribeVmm));

    let mut build = build_microvm_for_boot(full_resources(true), filters()).unwrap();
    let mut host = Host::failing_at(Action::ApplySeccompFilter);
    host.run(&mut build);
    assert_eq!(plugged_in(&host), 0);

    let mut build = build_and_boot_microvm(full_resources(true), filters()).unwrap();
    let mut host = Host::new();
    host.run(&mut build);
    assert_eq!(plugged_in(&host), 1);

    let info = snapshot(None, 2, false);
    let mut build = build_microvm_from_snapshot(default_resources(true), filters(), info);
    let mut host = Host::new();
    host.run(&mut build);
    assert_eq!(plugged_in(&host), 1);
    assert!(host.log.contains(&Action::StartVcpus));
    // The bus of a restored machine lies behind the memory of the snapshot.
    assert!(host.log.contains(&Action::Vmm(VmmAction::Pci(
        PciSetupAction::CreateMmio64Allocator {
            base: 0x1_0000_0000,
            size: 0x3fff_ffef_0000 - 0x1_0000_0000,
        }
    ))));
}

#[test]
fn no_thread_starts_without_its_filter() {
    for (names, last, missing) in [
        (vec!["vmm".to_string()], Action::ConfigureSystem, "vcpu"),
        (vec!["vcpu".to_string()], Action::StartVcpus, "vmm"),
    ] {
        let mut build = build_microvm_for_boot(default_resources(false), names).unwrap();
        let mut host = Host::new();
        host.run(&mut build);
        assert_eq!(host.log.last(), Some(&last));
        let (_, verdict) = build.into_parts();
        assert!(matches!(
            start_result(verdict),
            Some(Err(StartMicrovmError::MissingSeccompFilters(name))) if name == missing
        ));
    }
    assert_eq!(ThreadCategory::Vcpu.name(), "vcpu");
    assert_eq!(ThreadCategory::Vmm.name(), "vmm");
}

#[test]
fn restored_thread_needs_its_filter_too() {
    let info = snapshot(None, 2, false);
    let names = vec!["vmm".to_string()];
    let mut build = build_microvm_from_snapshot(default_resources(false), names, info);
    let mut host = Host::new();
    host.run(&mut build);
    assert_eq!(host.log.last(), Some(&Action::Restore(RestoreAction::NotifyVmgenid)));
    let (_, verdict) = build.into_parts();
    assert!(matches!(
        snapshot_result(verdict),
        Some(Err(BuildMicrovmFromSnapshotError::MissingVcpuSeccompFilters))
    ));

    let info = snapshot(None, 2, false);
    let names = vec!["vcpu".to_string()];
    let mut build = build_microvm_from_snapshot(default_resources(false), names, info);
    let mut host = Host::new();
    host.run(&mut build);
    assert_eq!(host.log.last(), Some(&Action::SubscribeVmm));
    let (_, verdict) = build.into_parts();
    assert!(matches!(
        snapshot_result(verdict),
        Some(Err(BuildMicrovmFromSnapshotError::MissingVmmSeccompFilters))
    ));
}

#[test]
fn snapshot_is_restored_in_order() {
    let info = snapshot(Some(2_400_000), 3, false);
    let mut build = build_microvm_from_snapshot(default_resources(false), filters(), info);
    let mut host = Host::new();
    host.run(&mut build);
    let start = host.position(Action::Vmm(VmmAction::AssembleVmm)) + 1;
    assert_eq!(
        host.log[0],
        Action::Vmm(VmmAction::OpenKvm { capabilities: Capabilities::Snapshot })
    );
    assert_eq!(
        host.log[start..].to_vec(),
        vec![
            Action::Restore(RestoreAction::CheckTscScaling { khz: 2_400_000 }),
            Action::Restore(RestoreAction::SetTsc { vcpu: 0, khz: 2_400_000 }),
            Action::Restore(RestoreAction::SetTsc { vcpu: 1, khz: 2_400_000 }),
            Action::Restore(RestoreAction::RestoreVcpu { index: 0 }),
            Action::Restore(RestoreAction::RestoreVcpu { index: 1 }),
            Action::Restore(RestoreAction::RestoreVm),
            Action::Restore(RestoreAction::RestoreBootSource),
            Action::Restore(RestoreAction::RestoreMmioDevices { restored_from_file: true }),
            Action::Restore(RestoreAction::EmulateSerialInit),
            Action::Restore(RestoreAction::RestoreAcpiDevices),
            Action::Restore(RestoreAction::NotifyVmgenid),
            Action::StartVcpus,
            Action::SubscribeVmm,
            Action::ApplySeccompFilter,
        ]
    );
    assert!(build.cmdline().is_none());
    let (_, verdict) = build.into_parts();
    assert!(matches!(snapshot_result(verdict), Some(Ok(()))));
}

#[test]
fn time_stamp_counters_are_scaled_only_where_required() {
    for (arch, tsc, required, asks, sets) in [
        (Arch::X86_64, Some(2_400_000), true, 1, 2),
        (Arch::X86_64, Some(2_400_000), false, 1, 0),
        (Arch::X86_64, None, true, 0, 0),
        (Arch::Aarch64, Some(2_400_000), true, 0, 0),
    ] {
        let mut resources = default_resources(false);
        resources.arch = arch;
        let mut build = build_microvm_from_snapshot(resources, filters(), snapshot(tsc, 2, true));
        let mut host = Host::new();
        host.tsc_scaling = required;
        host.run(&mut build);
        assert!(matches!(build.verdict(), Verdict::Built));
        let asked = |wanted: fn(&RestoreAction) -> bool| -> usize {
            host.log.iter().filter(|a| matches!(a, Action::Restore(r) if wanted(r))).count()
        };
        assert_eq!(asked(|r| matches!(r, RestoreAction::CheckTscScaling { .. })), asks);
        assert_eq!(asked(|r| matches!(r, RestoreAction::SetTsc { .. })), sets);
        assert!(host.log.contains(&Action::Restore(RestoreAction::RestoreMmioDevices {
            restored_from_file: false
        })));
    }
}

#[test]
fn vcpus_without_a_state_are_not_restored() {
    let mut resources = default_resources(false);
    resources.vcpu_count = 4;
    let mut build = build_microvm_from_snapshot(resources, filters(), snapshot(None, 1, false));
    let mut host = Host::new();
    host.run(&mut build);
    let restored: Vec<Action> = host
        .log
        .iter()
        .copied()
        .filter(|a| matches!(a, Action::Restore(RestoreAction::RestoreVcpu { .. })))
        .collect();
    assert_eq!(restored, vec![Action::Restore(RestoreAction::RestoreVcpu { index: 0 })]);

    let mut resources = default_resources(false);
    resources.arch = Arch::Aarch64;
    let mut build = build_microvm_from_snapshot(resources, filters(), snapshot(None, 0, false));
    let mut host = Host::new();
    host.run(&mut build);
    assert!(matches!(build.verdict(), Verdict::Built));
}

#[test]
fn root_arguments_that_do_not_fit_end_the_boot() {
    let mut resources = default_resources(false);
    resources.boot_config = Some(BootConfig { cmdline: Cmdline::try_from("quiet", 19).unwrap() });
    resources.block = vec![block("root", true, None, true)];
    let mut build = build_microvm_for_boot(resources, filters()).unwrap();
    let mut host = Host::new();
    host.run(&mut build);
    assert!(!host.log.iter().any(|a| matches!(a, Action::Attach(..))));
    let (_, verdict) = build.into_parts();
    assert!(matches!(
        start_result(verdict),
        Some(Err(StartMicrovmError::KernelCmdline(text)))
            if text == "Inserting string would make command line too long."
    ));
}

#[test]
fn unprintable_partition_ends_the_boot() {
    let mut resources = default_resources(false);
    resources.block = vec![block("root", true, Some("0eaa\u{7f}"), true)];
    let mut build = build_microvm_for_boot(resources, filters()).unwrap();
    let mut host = Host::new();
    host.run(&mut build);
    let (_, verdict) = build.into_parts();
    assert!(matches!(
        start_result(verdict),
        Some(Err(StartMicrovmError::KernelCmdline(text)))
            if text == "String contains a non-printable ASCII character."
    ));
}

#[test]
fn outcomes_that_do_not_fit_are_not_accepted() {
    let build = build_microvm_for_boot(default_resources(true), filters()).unwrap();
    assert_eq!(build.action(), Some(Action::AllocateGuestMemory));
    assert!(!build.accepts(&Outcome::Done));
    assert!(!build.accepts(&Outcome::Bdf(8)));
    assert!(build.accepts(&Outcome::Failed("out of memory".to_string())));
    let too_much = Outcome::GuestMemory { last_addr: 0x3fff_ffff_ffff, regions: Vec::new() };
    assert!(!build.accepts(&too_much));
    let build = build_microvm_for_boot(default_resources(false), filters()).unwrap();
    assert!(build.accepts(&too_much));
}

#[test]
fn first_vcpu_must_exist_where_it_is_asked() {
    let info = snapshot(Some(1), 1, false);
    let mut build = build_microvm_from_snapshot(default_resources(false), filters(), info);
    let mut host = Host::new();
    run_until(&mut build, &mut host, Action::Vmm(VmmAction::CreateVcpus { count: 2 }));
    assert!(!build.accepts(&Outcome::Vcpus(0)));
    assert!(build.accepts(&Outcome::Vcpus(1)));
}

#[test]
fn notification_addresses_must_be_addresses() {
    let mut resources = default_resources(true);
    resources.vsock = Some(virtio("vsock", TYPE_VSOCK, 3));
    let mut build = build_microvm_for_boot(resources, filters()).unwrap();
    let mut host = Host::new();
    let wanted = Action::Attach(DeviceHandle::Vsock, AttachAction::ConfigBarAddress);
    run_until(&mut build, &mut host, wanted);
    assert!(build.accepts(&Outcome::BarAddress(u64::MAX - 0x6008)));
    assert!(!build.accepts(&Outcome::BarAddress(u64::MAX - 0x6007)));
    assert!(!build.accepts(&Outcome::BarAddress(u64::MAX)));
    assert!(!build.accepts(&Outcome::Failed("gone".to_string())));
}

#[test]
fn build_that_runs_has_no_result_yet() {
    let build = build_microvm_for_boot(default_resources(false), filters()).unwrap();
    let (_, verdict) = build.into_parts();
    assert!(start_result(verdict).is_none());
    let info = snapshot(None, 1, false);
    let build = build_microvm_from_snapshot(default_resources(false), filters(), info);
    let (_, verdict) = build.into_parts();
    assert!(snapshot_result(verdict).is_none());
}

#[test]
fn build_without_tasks_is_done() {
    let build = build_microvm(boot_input(default_resources(false)), Vec::new());
    assert!(matches!(build.verdict(), Verdict::Built));
    assert_eq!(build.action(), None);
    assert!(!build.accepts(&Outcome::Done));
}

#[test]
fn failures_of_the_machine_keep_their_error() {
    let of = |action: Action| start_error_of(default_resources(false), action);
    assert!(matches!(of(Action::AllocateGuestMemory), StartMicrovmError::GuestMemory(_)));
    assert!(matches!(of(Action::LoadKernel), StartMicrovmError::ConfigureSystem(_)));
    assert!(matches!(of(Action::LoadInitrd), StartMicrovmError::Initrd(_)));
    assert!(matches!(of(Action::GetCpuTemplate), StartMicrovmError::GetCpuTemplate(_)));
    assert!(matches!(
        of(Action::Vmm(VmmAction::OpenKvm { capabilities: Capabilities::CpuTemplate })),
        StartMicrovmError::Internal(VmmError::Kvm(_))
    ));
    assert!(matches!(
        of(Action::Vmm(VmmAction::CreateVm)),
        StartMicrovmError::Internal(VmmError::Host(_))
    ));
    assert!(matches!(
        of(Action::Vmm(VmmAction::CreateVcpus { count: 2 })),
        StartMicrovmError::Internal(VmmError::Vm(_))
    ));
    assert!(matches!(
        of(Action::Vmm(VmmAction::Serial(SerialAction::CreateInterruptEvent))),
        StartMicrovmError::Internal(VmmError::EventFd(_))
    ));
    assert!(matches!(
        of(Action::Vmm(VmmAction::CloneExitEvent)),
        StartMicrovmError::Internal(VmmError::EventFd(_))
    ));
    assert!(matches!(
        of(Action::Vmgenid(VmgenidAction::Create)),
        StartMicrovmError::CreateVMGenID(_)
    ));
    assert!(matches!(
        of(Action::Vmgenid(VmgenidAction::Attach)),
        StartMicrovmError::AttachVmgenidDevice(_)
    ));
    assert!(matches!(
        of(Action::StartVcpus),
        StartMicrovmError::Internal(VmmError::VcpuStart(_))
    ));
    assert!(matches!(
        of(Action::ApplySeccompFilter),
        StartMicrovmError::Internal(VmmError::SeccompFilters(cause)) if cause == "no such luck"
    ));
    assert!(matches!(of(Action::ResumeVm), StartMicrovmError::Internal(VmmError::Host(_))));
}

#[test]
fn failures_of_devices_keep_their_error() {
    let mmio = |action: AttachAction| {
        start_error_of(full_resources(false), Action::Attach(DeviceHandle::Net(1), action))
    };
    assert!(matches!(
        mmio(AttachAction::RegisterMmio { is_vhost_user: false }),
        StartMicrovmError::RegisterMmioDevice(MmioError::Device(_))
    ));
    assert!(matches!(
        start_error_of(full_resources(false), Action::AttachBootTimer),
        StartMicrovmError::RegisterMmioDevice(MmioError::Device(_))
    ));
    let pci = |action: AttachAction| {
        start_error_of(full_resources(true), Action::Attach(DeviceHandle::Balloon, action))
    };
    for action in [
        AttachAction::NextDeviceBdf,
        AttachAction::CreateVirtioPci { msix_num: 3, bdf: 8, use_64bit_bar: true },
        AttachAction::Pci(PciAction::AllocateBars { device: 1 }),
        AttachAction::Pci(PciAction::AddDevice { device: 1 }),
        AttachAction::Pci(PciAction::InsertMmioBus { addr: 0x1000_0000, size: 0x8_0000 }),
    ] {
        assert!(matches!(
            pci(action),
            StartMicrovmError::RegisterMmioDevice(MmioError::Unknown)
        ));
    }
    assert!(matches!(
        pci(AttachAction::RegisterIoevent { queue: 1, addr: 0x1_0000_6004 }),
        StartMicrovmError::RegisterMmioDevice(MmioError::RegisterIoEvent(_))
    ));
}

#[test]
fn failures_of_passthrough_and_debugging_keep_their_error() {
    let resources = || {
        let mut resources = default_resources(true);
        let devices = vec![VfioDevice { path: "/sys/bus/pci/devices/0000:00:04.0".to_string() }];
        resources.pci_config = Some(PciConfig { enabled: true, vfio_devices: Some(devices) });
        resources.gdb = Some(GdbConfig { socket: true });
        resources
    };
    let of = |action: Action| start_error_of(resources(), action);
    assert!(matches!(
        of(Action::Vfio(0, VfioAction::CreateContainer)),
        StartMicrovmError::VfioError(_)
    ));
    assert!(matches!(
        of(Action::Vfio(0, VfioAction::OpenDevice)),
        StartMicrovmError::VfioError(_)
    ));
    assert!(matches!(
        of(Action::Vfio(
            0,
            VfioAction::DmaMap { iova: 0, size: 128 << 20, user_addr: 0x7f00_0000_0000 }
        )),
        StartMicrovmError::VfioPciError(_)
    ));
    assert!(matches!(of(Action::CloneVcpuFds), StartMicrovmError::VcpuFdCloneError(_)));
    assert!(matches!(of(Action::StartGdb), StartMicrovmError::GdbServer(_)));
}

#[test]
fn failures_of_legacy_devices_keep_their_error() {
    let resources = || {
        let mut resources = default_resources(false);
        resources.arch = Arch::Aarch64;
        let cmdline = Cmdline::try_from("console=ttyS0", 256).unwrap();
        resources.boot_config = Some(BootConfig { cmdline });
        resources
    };
    assert!(matches!(
        start_error_of(
            resources(),
            Action::Legacy(LegacyAction::Serial(SerialAction::CreateKickStdinEvent))
        ),
        StartMicrovmError::Internal(VmmError::EventFd(_))
    ));
    for action in [
        LegacyAction::RegisterSerial,
        LegacyAction::AddSerialToCmdline,
        LegacyAction::RegisterRtc,
    ] {
        assert!(matches!(
            start_error_of(resources(), Action::Legacy(action)),
            StartMicrovmError::Internal(VmmError::RegisterMMIODevice(MmioError::Device(_)))
        ));
    }
}

#[test]
fn failures_of_restoration_keep_their_error() {
    let of = |action: RestoreAction| snapshot_error_of(Action::Restore(action));
    assert!(matches!(
        snapshot_error_of(Action::Vmm(VmmAction::CheckMemory)),
        BuildMicrovmFromSnapshotError::CreateMicrovmAndVcpus(StartMicrovmError::Internal(
            VmmError::Host(_)
        ))
    ));
    assert!(matches!(
        of(RestoreAction::CheckTscScaling { khz: 2_400_000 }),
        BuildMicrovmFromSnapshotError::GetTsc(_)
    ));
    assert!(matches!(
        of(RestoreAction::SetTsc { vcpu: 1, khz: 2_400_000 }),
        BuildMicrovmFromSnapshotError::SetTsc(_)
    ));
    assert!(matches!(
        of(RestoreAction::RestoreVcpu { index: 1 }),
        BuildMicrovmFromSnapshotError::RestoreVcpus(VcpuError::VcpuResponse(_))
    ));
    assert!(matches!(
        of(RestoreAction::RestoreVm),
        BuildMicrovmFromSnapshotError::RestoreState(_)
    ));
    assert!(matches!(
        of(RestoreAction::RestoreMmioDevices { restored_from_file: true }),
        BuildMicrovmFromSnapshotError::RestoreMmioDevice(MicrovmStateError::RestoreDevices(_))
    ));
    assert!(matches!(
        of(RestoreAction::EmulateSerialInit),
        BuildMicrovmFromSnapshotError::EmulateSerialInit(_)
    ));
    assert!(matches!(
        of(RestoreAction::RestoreAcpiDevices),
        BuildMicrovmFromSnapshotError::ACPIDeviManager(_)
    ));
    assert!(matches!(
        of(RestoreAction::NotifyVmgenid),
        BuildMicrovmFromSnapshotError::VMGenIDUpdate(_)
    ));
    assert!(matches!(
        snapshot_error_of(Action::StartVcpus),
        BuildMicrovmFromSnapshotError::StartVcpus(_)
    ));
    assert!(matches!(
        snapshot_error_of(Action::ApplySeccompFilter),
        BuildMicrovmFromSnapshotError::SeccompFiltersInternal(_)
    ));
}

fn passthrough(enabled: bool, count: usize) -> VmResources {
    let mut resources = default_resources(enabled);
    let devices = (0..count)
        .map(|i| VfioDevice { path: format!("/sys/bus/pci/devices/0000:00:{:02x}.0", i + 4) })
        .collect();
    resources.pci_config = Some(PciConfig { enabled, vfio_devices: Some(devices) });
    resources
}

fn passthrough_tasks(resources: &VmResources) -> Vec<Task> {
    add_vfio_devices(resources.pci_config.as_ref().unwrap().vfio_devices.as_ref().unwrap())
}

#[test]
fn host_devices_reach_the_memory_of_a_snapshot() {
    let resources = passthrough(true, 1);
    let tasks = passthrough_tasks(&resources);
    let mut info = snapshot(None, 1, false);
    info.regions = vec![
        MemoryRegion { start: 0, len: 0x1000, host_addr: 0x7d00_0000_0000 },
        MemoryRegion { start: 0x1_0000_0000, len: 0x2000, host_addr: 0x7c00_0000_0000 },
    ];
    let input =
        BuildInput { resources, seccomp_filters: filters(), source: Source::Snapshot(info) };
    assert!(can_begin_build(&input, &tasks));
    let mut build = build_microvm(input, tasks);
    let mut host = Host::new();
    host.run(&mut build);
    assert!(matches!(build.verdict(), Verdict::Built));
    let end = host.log.len();
    assert_eq!(
        host.log[end - 2..].to_vec(),
        vec![
            Action::Vfio(
                0,
                VfioAction::DmaMap { iova: 0, size: 0x1000, user_addr: 0x7d00_0000_0000 }
            ),
            Action::Vfio(
                0,
                VfioAction::DmaMap {
                    iova: 0x1_0000_0000,
                    size: 0x2000,
                    user_addr: 0x7c00_0000_0000,
                }
            ),
        ]
    );
}

#[test]
fn work_waits_for_what_it_depends_on() {
    let resources = passthrough(true, 1);
    let mut tasks = passthrough_tasks(&resources);
    let input = boot_input(resources);
    assert!(!can_begin_build(&input, &tasks));
    tasks.insert(0, Task::Host(Action::AllocateGuestMemory));
    assert!(can_begin_build(&input, &tasks));

    assert!(!can_begin_build(&input, &vec![Task::PlanPci]));
    let memory_last = vec![Task::PlanPci, Task::Host(Action::AllocateGuestMemory)];
    assert!(!can_begin_build(&input, &memory_last));
    let memory_first = vec![Task::Host(Action::AllocateGuestMemory), Task::PlanPci];
    assert!(can_begin_build(&input, &memory_first));

    let input = BuildInput {
        resources: default_resources(true),
        seccomp_filters: filters(),
        source: Source::Snapshot(snapshot(Some(7), 1, false)),
    };
    let vcpus = Task::Host(Action::Vmm(VmmAction::CreateVcpus { count: 2 }));
    let check = Task::Host(Action::Restore(RestoreAction::CheckTscScaling { khz: 7 }));
    assert!(can_begin_build(&input, &vec![Task::PlanPci]));
    assert!(!can_begin_build(&input, &vec![Task::PlanVcpuRestore]));
    assert!(can_begin_build(&input, &vec![vcpus, Task::PlanVcpuRestore]));
    assert!(!can_begin_build(&input, &vec![check, vcpus]));
    assert!(can_begin_build(&input, &vec![vcpus, check]));
}

#[test]
fn build_needs_its_source() {
    let mut resources = default_resources(false);
    resources.boot_config = None;
    assert!(!can_begin_build(&boot_input(resources), &Vec::new()));
    assert!(can_begin_build(&boot_input(default_resources(false)), &Vec::new()));

    let mut info = snapshot(None, 1, false);
    info.last_addr = 0x3fff_ffff_ffff;
    let mut input = BuildInput {
        resources: default_resources(true),
        seccomp_filters: filters(),
        source: Source::Snapshot(info),
    };
    assert!(!can_begin_build(&input, &Vec::new()));
    input.resources.pci_config = Some(PciConfig { enabled: false, vfio_devices: None });
    assert!(can_begin_build(&input, &Vec::new()));
}

#[test]
fn tasks_must_be_of_the_machine() {
    let mut resources = full_resources(false);
    resources.block[1].is_vhost_user = true;
    let input = boot_input(resources);
    assert!(can_work_on(&input, Task::RootArguments(0)));
    assert!(!can_work_on(&input, Task::RootArguments(1)));
    assert!(!can_work_on(&input, Task::RootArguments(2)));
    let subscribe = |device| Task::Host(Action::Attach(device, AttachAction::Subscribe));
    assert!(can_work_on(&input, subscribe(DeviceHandle::Net(1))));
    assert!(!can_work_on(&input, subscribe(DeviceHandle::Net(2))));
    let bdf = Action::Attach(DeviceHandle::Balloon, AttachAction::NextDeviceBdf);
    assert!(!can_work_on(&input, Task::Host(bdf)));
    assert!(!can_work_on(&input, Task::PlanPci));
    assert!(!can_work_on(&input, Task::PlanLegacyDevices));
    assert!(!can_work_on(&input, Task::PlanVcpuRestore));
    assert!(!can_work_on(&input, Task::Host(Action::Vfio(0, VfioAction::NextDeviceId))));
    assert!(can_work_on(&input, Task::RequireFilter(ThreadCategory::Vmm)));
    let check = |khz| Task::Host(Action::Restore(RestoreAction::CheckTscScaling { khz }));
    assert!(!can_work_on(&input, check(7)));
    let input = BuildInput {
        resources: default_resources(false),
        seccomp_filters: filters(),
        source: Source::Snapshot(snapshot(Some(7), 1, false)),
    };
    assert!(can_work_on(&input, check(7)));
    assert!(!can_work_on(&input, check(8)));
    assert!(!can_work_on(&input, Task::RootArguments(0)));
}

#[test]
fn machine_is_booted_before_it_runs() {
    let mut paused = build_microvm_for_boot(full_resources(true), filters()).unwrap();
    let mut running = build_and_boot_microvm(full_resources(true), filters()).unwrap();
    let mut paused_host = Host::new();
    let mut running_host = Host::new();
    paused_host.run(&mut paused);
    running_host.run(&mut running);
    paused_host.log.push(Action::ResumeVm);
    assert_eq!(running_host.log, paused_host.log);

    // What goes wrong on the way goes wrong in the same way.
    let mut paused = build_microvm_for_boot(full_resources(true), filters()).unwrap();
    let mut running = build_and_boot_microvm(full_resources(true), filters()).unwrap();
    let mut paused_host = Host::failing_at(Action::StartVcpus);
    let mut running_host = Host::failing_at(Action::StartVcpus);
    paused_host.run(&mut paused);
    running_host.run(&mut running);
    assert_eq!(running_host.log, paused_host.log);
    let (_, paused) = paused.into_parts();
    let (_, running) = running.into_parts();
    assert_eq!(
        format!("{:?}", start_result(running).unwrap()),
        format!("{:?}", start_result(paused).unwrap())
    );
}

#[test]
fn filter_of_the_vcpus_is_missed_first() {
    let mut build = build_and_boot_microvm(default_resources(false), Vec::new()).unwrap();
    let mut host = Host::new();
    host.run(&mut build);
    let (_, verdict) = build.into_parts();
    assert!(matches!(
        start_result(verdict),
        Some(Err(StartMicrovmError::MissingSeccompFilters(name))) if name == "vcpu"
    ));

    let info = snapshot(None, 2, false);
    let mut build = build_microvm_from_snapshot(default_resources(false), Vec::new(), info);
    let mut host = Host::new();
    host.run(&mut build);
    let (_, verdict) = build.into_parts();
    assert!(matches!(
        snapshot_result(verdict),
        Some(Err(BuildMicrovmFromSnapshotError::MissingVcpuSeccompFilters))
    ));
}

#[test]
fn devices_are_attached_once_and_in_order() {
    for pci in [false, true] {
        for runs in [false, true] {
            let mut resources = full_resources(pci);
            resources.pci_config = passthrough(pci, if pci { 2 } else { 0 }).pci_config;
            let mut build = if runs {
                build_and_boot_microvm(resources, filters()).unwrap()
            } else {
                build_microvm_for_boot(resources, filters()).unwrap()
            };
            let mut host = Host::new();
            host.run(&mut build);
            assert!(matches!(build.verdict(), Verdict::Built));
            let subscribed: Vec<DeviceHandle> = host
                .log
                .iter()
                .filter_map(|action| match action {
                    Action::Attach(device, AttachAction::Subscribe) => Some(*device),
                    _ => None,
                })
                .collect();
            assert_eq!(
                subscribed,
                vec![
                    DeviceHandle::Balloon,
                    DeviceHandle::Block(0),
                    DeviceHandle::Block(1),
                    DeviceHandle::Net(0),
                    DeviceHandle::Net(1),
                    DeviceHandle::Vsock,
                    DeviceHandle::Entropy,
                ]
            );
            let on_transport: Vec<DeviceHandle> = host
                .log
                .iter()
                .filter_map(|action| match action {
                    Action::Attach(device, AttachAction::NextDeviceBdf) if pci => Some(*device),
                    Action::Attach(device, AttachAction::RegisterMmio { .. }) if !pci => {
                        Some(*device)
                    }
                    _ => None,
                })
                .collect();
            assert_eq!(on_transport, subscribed);
            let numbered: Vec<usize> = host
                .log
                .iter()
                .filter_map(|action| match action {
                    Action::Vfio(i, VfioAction::NextDeviceId) => Some(*i),
                    _ => None,
                })
                .collect();
            assert_eq!(numbered, if pci { vec![0, 1] } else { Vec::new() });
            let timers =
                host.log.iter().filter(|action| **action == Action::AttachBootTimer).count();
            assert_eq!(timers, 1);
        }
    }
}

#[test]
fn boot_timer_is_attached_only_where_configured() {
    let mut resources = full_resources(false);
    resources.boot_timer = false;
    let mut build = build_microvm_for_boot(resources, filters()).unwrap();
    let mut host = Host::new();
    host.run(&mut build);
    assert!(matches!(build.verdict(), Verdict::Built));
    assert!(!host.log.contains(&Action::AttachBootTimer));
    assert!(!host.has_boot_timer);
}
