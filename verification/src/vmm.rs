//! Creating the monitor, its vCPUs and the devices of the platform.
use crate::layout::{
    leaves_device_area, pci_irq_slots, pci_layout, slot_irq, spec_pci_layout, ArchLayout, PciLayout,
    IO_PORT_SPACE_SIZE, NUM_IOAPIC_PINS, X86_64_IRQ_BASE,
};
use crate::pci::PCI_SEGMENT_ID;
use crate::resources::Arch;
use crate::task::{
    Action, Capabilities, LegacyAction, PciSetupAction, SerialAction, Task, VmgenidAction, VmmAction,
};
use vstd::prelude::*;

verus! {

/// The steps of setting up the serial device: the two events that it works with, the device, and
/// its subscription.
pub open spec fn serial_plan() -> Seq<SerialAction> {
    seq![
        SerialAction::CreateInterruptEvent,
        SerialAction::CreateKickStdinEvent,
        SerialAction::CreateDevice,
        SerialAction::Subscribe,
    ]
}

/// Plans to set up the serial device.
pub fn setup_serial_device() -> (plan: Vec<SerialAction>)
    ensures
        plan@ == serial_plan(),
{
    let mut plan: Vec<SerialAction> = Vec::new();
    plan.push(SerialAction::CreateInterruptEvent);
    plan.push(SerialAction::CreateKickStdinEvent);
    plan.push(SerialAction::CreateDevice);
    plan.push(SerialAction::Subscribe);
    assert(plan@ =~= serial_plan());
    plan
}

/// How the flags of standard output are changed.
#[derive(Clone, Copy, Debug, PartialEq, Eq, Structural)]
pub struct StdoutUpdate {
    /// The flags could not be read.
    pub get_failed: bool,
    /// The flags that are set.
    pub flags: i32,
}

/// Adds `nonblock` to the flags that were read of standard output. What was read is used even
/// where reading failed.
pub fn set_stdout_nonblocking(flags: i32, nonblock: i32) -> (update: StdoutUpdate)
    ensures
        update.get_failed == (flags < 0),
        update.flags == flags | nonblock,
{
    StdoutUpdate { get_failed: flags < 0, flags: flags | nonblock }
}

/// The step `action` of creating the monitor.
pub open spec fn vmm_task(action: VmmAction) -> Task {
    Task::Host(Action::Vmm(action))
}

/// The step `action` of setting up the serial device, as a legacy device or as part of creating the
/// monitor.
pub open spec fn serial_task(legacy: bool, action: SerialAction) -> Task {
    if legacy {
        legacy_task(LegacyAction::Serial(action))
    } else {
        vmm_task(VmmAction::Serial(action))
    }
}

/// Plans to set up the serial device, as a legacy device or as part of creating the monitor.
fn serial_tasks(legacy: bool) -> (tasks: Vec<Task>)
    ensures
        tasks@ == serial_plan().map_values(|action: SerialAction| serial_task(legacy, action)),
{
    let serial: Vec<SerialAction> = setup_serial_device();
    let mut tasks: Vec<Task> = Vec::new();
    let mut i: usize = 0;
    while i < serial.len()
        invariant
            i <= serial@.len(),
            tasks@ == serial@.take(i as int).map_values(
                |action: SerialAction| serial_task(legacy, action),
            ),
        decreases serial@.len() - i,
    {
        if legacy {
            tasks.push(Task::Host(Action::Legacy(LegacyAction::Serial(serial[i]))));
        } else {
            tasks.push(Task::Host(Action::Vmm(VmmAction::Serial(serial[i]))));
        }
        i = i + 1;
        assert(tasks@ =~= serial@.take(i as int).map_values(
            |action: SerialAction| serial_task(legacy, action),
        ));
    }
    assert(serial@.take(serial@.len() as int) =~= serial@);
    tasks
}

/// The steps of creating the monitor that only x86_64 machines have before the PCI bus: the port
/// I/O devices. The event by which vCPUs exit serves as the reset line.
pub open spec fn port_io_plan() -> Seq<Task> {
    seq![vmm_task(VmmAction::SetStdoutNonblocking)] + serial_plan().map_values(
        |action: SerialAction| vmm_task(VmmAction::Serial(action)),
    ) + seq![vmm_task(VmmAction::CloneExitEvent), vmm_task(VmmAction::CreatePortIoManager)]
}

/// The steps of creating the monitor and its vCPUs.
pub open spec fn create_vmm_plan(
    arch: Arch,
    pci: bool,
    vcpu_count: u8,
    capabilities: Capabilities,
) -> Seq<Task> {
    seq![
        vmm_task(VmmAction::OpenKvm { capabilities }),
        vmm_task(VmmAction::CreateVm),
        vmm_task(VmmAction::CheckMemory),
        vmm_task(VmmAction::InitMemory),
        vmm_task(VmmAction::CreateVcpus { count: vcpu_count }),
        vmm_task(VmmAction::CreateResourceAllocator),
        vmm_task(VmmAction::CreateDeviceManagers),
    ] + (if arch == Arch::X86_64 {
        port_io_plan()
    } else {
        seq![]
    }) + (if pci {
        seq![Task::PlanPci]
    } else {
        seq![]
    }) + (if arch == Arch::X86_64 {
        seq![vmm_task(VmmAction::RegisterPortIoDevices)]
    } else {
        seq![]
    }) + seq![vmm_task(VmmAction::AssembleVmm)]
}

/// Plans to create the monitor and its vCPUs.
pub fn create_vmm_and_vcpus(
    arch: Arch,
    pci: bool,
    vcpu_count: u8,
    capabilities: Capabilities,
) -> (plan: Vec<Task>)
    ensures
        plan@ == create_vmm_plan(arch, pci, vcpu_count, capabilities),
{
    let mut plan: Vec<Task> = Vec::new();
    plan.push(Task::Host(Action::Vmm(VmmAction::OpenKvm { capabilities })));
    plan.push(Task::Host(Action::Vmm(VmmAction::CreateVm)));
    plan.push(Task::Host(Action::Vmm(VmmAction::CheckMemory)));
    plan.push(Task::Host(Action::Vmm(VmmAction::InitMemory)));
    plan.push(Task::Host(Action::Vmm(VmmAction::CreateVcpus { count: vcpu_count })));
    plan.push(Task::Host(Action::Vmm(VmmAction::CreateResourceAllocator)));
    plan.push(Task::Host(Action::Vmm(VmmAction::CreateDeviceManagers)));
    let ghost start = plan@;
    let has_port_io: bool = match arch {
        Arch::X86_64 => true,
        Arch::Aarch64 => false,
    };
    if has_port_io {
        plan.push(Task::Host(Action::Vmm(VmmAction::SetStdoutNonblocking)));
        let mut serial: Vec<Task> = serial_tasks(false);
        plan.append(&mut serial);
        assert(serial_plan().map_values(|action: SerialAction| serial_task(false, action))
            =~= serial_plan().map_values(
            |action: SerialAction| vmm_task(VmmAction::Serial(action)),
        ));
        plan.push(Task::Host(Action::Vmm(VmmAction::CloneExitEvent)));
        plan.push(Task::Host(Action::Vmm(VmmAction::CreatePortIoManager)));
        assert(plan@ =~= start + port_io_plan());
    }
    if pci {
        plan.push(Task::PlanPci);
    }
    if has_port_io {
        plan.push(Task::Host(Action::Vmm(VmmAction::RegisterPortIoDevices)));
    }
    plan.push(Task::Host(Action::Vmm(VmmAction::AssembleVmm)));
    assert(plan@ =~= create_vmm_plan(arch, pci, vcpu_count, capabilities));
    plan
}

/// The step `action` of setting up the PCI bus.
pub open spec fn pci_setup_task(action: PciSetupAction) -> Task {
    vmm_task(VmmAction::Pci(action))
}

/// The steps of setting up the PCI bus on the areas for devices. The interrupt manager for message
/// signalled interrupts comes before what needs it.
pub open spec fn pci_setup_plan(layout: PciLayout) -> Seq<Task> {
    seq![
        pci_setup_task(
            PciSetupAction::CreateSystemAllocator {
                io_base: 0,
                io_size: IO_PORT_SPACE_SIZE,
                platform_base: layout.platform_base,
                platform_size: layout.platform_size,
                irq_base: X86_64_IRQ_BASE,
                irq_count: (NUM_IOAPIC_PINS - X86_64_IRQ_BASE) as u32,
            },
        ),
        pci_setup_task(PciSetupAction::CreateMsiInterruptManager),
        pci_setup_task(
            PciSetupAction::CreateMmio32Allocator {
                base: layout.mem32_base,
                size: layout.mem32_size,
            },
        ),
        pci_setup_task(
            PciSetupAction::CreateMmio64Allocator {
                base: layout.mem64_base,
                size: layout.mem64_size,
            },
        ),
        pci_setup_task(
            PciSetupAction::CreateSegment {
                id: PCI_SEGMENT_ID,
                node: 0,
                irq: slot_irq(),
            },
        ),
        pci_setup_task(PciSetupAction::InstallConfigPorts),
    ]
}

/// Plans to set up the PCI bus of a machine whose guest memory ends at `last_addr`.
pub fn setup_pci(last_addr: u64, arch: &ArchLayout) -> (plan: Vec<Task>)
    requires
        leaves_device_area(last_addr, *arch),
    ensures
        plan@ == pci_setup_plan(spec_pci_layout(last_addr, *arch)),
{
    let layout: PciLayout = pci_layout(last_addr, arch);
    let irq_count: u32 = NUM_IOAPIC_PINS as u32 - X86_64_IRQ_BASE;
    let irq_slots: [u8; 32] = pci_irq_slots();
    let mut plan: Vec<Task> = Vec::new();
    plan.push(
        Task::Host(
            Action::Vmm(
                VmmAction::Pci(
                    PciSetupAction::CreateSystemAllocator {
                        io_base: 0,
                        io_size: IO_PORT_SPACE_SIZE,
                        platform_base: layout.platform_base,
                        platform_size: layout.platform_size,
                        irq_base: X86_64_IRQ_BASE,
                        irq_count,
                    },
                ),
            ),
        ),
    );
    plan.push(
        Task::Host(Action::Vmm(VmmAction::Pci(PciSetupAction::CreateMsiInterruptManager))),
    );
    plan.push(
        Task::Host(
            Action::Vmm(
                VmmAction::Pci(
                    PciSetupAction::CreateMmio32Allocator {
                        base: layout.mem32_base,
                        size: layout.mem32_size,
                    },
                ),
            ),
        ),
    );
    plan.push(
        Task::Host(
            Action::Vmm(
                VmmAction::Pci(
                    PciSetupAction::CreateMmio64Allocator {
                        base: layout.mem64_base,
                        size: layout.mem64_size,
                    },
                ),
            ),
        ),
    );
    plan.push(
        Task::Host(
            Action::Vmm(
                VmmAction::Pci(
                    PciSetupAction::CreateSegment {
                        id: PCI_SEGMENT_ID,
                        node: 0,
                        irq: irq_slots[0],
                    },
                ),
            ),
        ),
    );
    plan.push(Task::Host(Action::Vmm(VmmAction::Pci(PciSetupAction::InstallConfigPorts))));
    assert(plan@ =~= pci_setup_plan(layout));
    plan
}

/// The step `action` of attaching the legacy devices.
pub open spec fn legacy_task(action: LegacyAction) -> Task {
    Task::Host(Action::Legacy(action))
}

/// The steps of attaching the legacy devices of an aarch64 machine: the serial device where the
/// kernel is told of a console, and the real time clock.
pub open spec fn legacy_plan(has_console: bool) -> Seq<Task> {
    (if has_console {
        seq![legacy_task(LegacyAction::SetStdoutNonblocking)] + serial_plan().map_values(
            |action: SerialAction| legacy_task(LegacyAction::Serial(action)),
        ) + seq![
            legacy_task(LegacyAction::RegisterSerial),
            legacy_task(LegacyAction::AddSerialToCmdline),
        ]
    } else {
        seq![]
    }) + seq![legacy_task(LegacyAction::RegisterRtc)]
}

/// Plans to attach the legacy devices of an aarch64 machine.
pub fn attach_legacy_devices_aarch64(has_console: bool) -> (plan: Vec<Task>)
    ensures
        plan@ == legacy_plan(has_console),
{
    let mut plan: Vec<Task> = Vec::new();
    if has_console {
        plan.push(Task::Host(Action::Legacy(LegacyAction::SetStdoutNonblocking)));
        let mut serial: Vec<Task> = serial_tasks(true);
        plan.append(&mut serial);
        assert(serial_plan().map_values(|action: SerialAction| serial_task(true, action))
            =~= serial_plan().map_values(
            |action: SerialAction| legacy_task(LegacyAction::Serial(action)),
        ));
        plan.push(Task::Host(Action::Legacy(LegacyAction::RegisterSerial)));
        plan.push(Task::Host(Action::Legacy(LegacyAction::AddSerialToCmdline)));
    }
    plan.push(Task::Host(Action::Legacy(LegacyAction::RegisterRtc)));
    assert(plan@ =~= legacy_plan(has_console));
    plan
}

/// Plans to attach the device that measures how long booting takes.
pub fn attach_boot_timer_device() -> (task: Task)
    ensures
        task == Task::Host(Action::AttachBootTimer),
{
    Task::Host(Action::AttachBootTimer)
}

/// The steps of attaching the device that tells a guest that it was cloned.
pub open spec fn vmgenid_plan() -> Seq<Task> {
    seq![
        Task::Host(Action::Vmgenid(VmgenidAction::Create)),
        Task::Host(Action::Vmgenid(VmgenidAction::Attach)),
    ]
}

/// Plans to attach the device that tells a guest that it was cloned.
pub fn attach_vmgenid_device() -> (plan: Vec<Task>)
    ensures
        plan@ == vmgenid_plan(),
{
    let mut plan: Vec<Task> = Vec::new();
    plan.push(Task::Host(Action::Vmgenid(VmgenidAction::Create)));
    plan.push(Task::Host(Action::Vmgenid(VmgenidAction::Attach)));
    assert(plan@ =~= vmgenid_plan());
    plan
}

/// An aarch64 machine has its clock registered in the end, and before that, where the kernel is told of
/// a console and only there, the serial device set up, registered and put on the command line.
pub proof fn law_serial_device_serves_the_console()
    ensures
        legacy_plan(false) == seq![Task::Host(Action::Legacy(LegacyAction::RegisterRtc))],
        legacy_plan(true) == seq![
            Task::Host(Action::Legacy(LegacyAction::SetStdoutNonblocking)),
            Task::Host(Action::Legacy(LegacyAction::Serial(SerialAction::CreateInterruptEvent))),
            Task::Host(Action::Legacy(LegacyAction::Serial(SerialAction::CreateKickStdinEvent))),
            Task::Host(Action::Legacy(LegacyAction::Serial(SerialAction::CreateDevice))),
            Task::Host(Action::Legacy(LegacyAction::Serial(SerialAction::Subscribe))),
            Task::Host(Action::Legacy(LegacyAction::RegisterSerial)),
            Task::Host(Action::Legacy(LegacyAction::AddSerialToCmdline)),
            Task::Host(Action::Legacy(LegacyAction::RegisterRtc)),
        ],
{
    assert(legacy_plan(false) =~= seq![Task::Host(Action::Legacy(LegacyAction::RegisterRtc))]);
    assert(legacy_plan(true) =~= seq![
        Task::Host(Action::Legacy(LegacyAction::SetStdoutNonblocking)),
        Task::Host(Action::Legacy(LegacyAction::Serial(SerialAction::CreateInterruptEvent))),
        Task::Host(Action::Legacy(LegacyAction::Serial(SerialAction::CreateKickStdinEvent))),
        Task::Host(Action::Legacy(LegacyAction::Serial(SerialAction::CreateDevice))),
        Task::Host(Action::Legacy(LegacyAction::Serial(SerialAction::Subscribe))),
        Task::Host(Action::Legacy(LegacyAction::RegisterSerial)),
        Task::Host(Action::Legacy(LegacyAction::AddSerialToCmdline)),
        Task::Host(Action::Legacy(LegacyAction::RegisterRtc)),
    ]);
}

} // verus!
