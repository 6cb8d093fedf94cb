//! Attaching virtio devices, over the PCI bus where the machine has one and over MMIO otherwise.
use crate::pci::{add_pci_device, add_plan, law_device_is_read_from_bdf, PCI_SEGMENT_ID};
use crate::resources::{BlockDevice, DeviceHandle, VirtioDevice, TYPE_BLOCK};
use crate::task::{Action, AttachAction, PciAction, Task};
use vstd::prelude::*;

verus! {

/// Where in the configuration of the PCI transport the notification addresses start.
pub const NOTIFICATION_BAR_OFFSET: u64 = 0x6000;

/// The distance of two notification addresses: a dword each.
pub const NOTIFY_OFF_MULTIPLIER: u32 = 4;

/// The step `action` for `device`.
pub open spec fn attach_task(device: DeviceHandle, action: AttachAction) -> Task {
    Task::Host(Action::Attach(device, action))
}

/// The steps of attaching a device over MMIO.
pub open spec fn mmio_plan(device: DeviceHandle, is_vhost_user: bool) -> Seq<Task> {
    seq![
        attach_task(device, AttachAction::Subscribe),
        attach_task(device, AttachAction::RegisterMmio { is_vhost_user }),
    ]
}

/// The first steps of attaching a device over PCI; the others follow from the address that the
/// device gets.
pub open spec fn pci_plan(device: DeviceHandle) -> Seq<Task> {
    seq![
        attach_task(device, AttachAction::Subscribe),
        attach_task(device, AttachAction::NextDeviceBdf),
    ]
}

/// The steps of attaching a virtio device.
pub open spec fn virtio_plan(device: DeviceHandle, pci: bool, is_vhost_user: bool) -> Seq<Task> {
    if pci {
        pci_plan(device)
    } else {
        mmio_plan(device, is_vhost_user)
    }
}

/// Plans to attach a device over MMIO.
pub fn attach_virtio_mmio_device(device: DeviceHandle, is_vhost_user: bool) -> (plan: Vec<Task>)
    ensures
        plan@ == mmio_plan(device, is_vhost_user),
{
    let mut plan: Vec<Task> = Vec::new();
    plan.push(Task::Host(Action::Attach(device, AttachAction::Subscribe)));
    plan.push(Task::Host(Action::Attach(device, AttachAction::RegisterMmio { is_vhost_user })));
    assert(plan@ =~= mmio_plan(device, is_vhost_user));
    plan
}

/// Plans to attach a device over PCI.
pub fn attach_virtio_pci_device(device: DeviceHandle) -> (plan: Vec<Task>)
    ensures
        plan@ == pci_plan(device),
{
    let mut plan: Vec<Task> = Vec::new();
    plan.push(Task::Host(Action::Attach(device, AttachAction::Subscribe)));
    plan.push(Task::Host(Action::Attach(device, AttachAction::NextDeviceBdf)));
    assert(plan@ =~= pci_plan(device));
    plan
}

/// Plans to attach a virtio device, over the PCI bus where there is one.
pub fn attach_virtio_device(device: DeviceHandle, pci: bool, is_vhost_user: bool) -> (plan: Vec<
    Task,
>)
    ensures
        plan@ == virtio_plan(device, pci, is_vhost_user),
{
    if pci {
        attach_virtio_pci_device(device)
    } else {
        attach_virtio_mmio_device(device, is_vhost_user)
    }
}

/// The number of interrupt vectors of a device: one for each queue, and one more to tell of a
/// change of the configuration. The number is kept in 16 bits.
pub open spec fn spec_msix_num(queues: usize) -> u16 {
    ((queues + 1) % 0x1_0000) as u16
}

/// The number of interrupt vectors of a device.
pub fn msix_num(queues: usize) -> (vectors: u16)
    requires
        queues < usize::MAX,
    ensures
        vectors == spec_msix_num(queues),
{
    let vectors: usize = queues + 1;
    assert(vectors as u16 == vectors % 0x1_0000) by (bit_vector);
    vectors as u16
}

/// Whether a device gets a 64-bit base address register. All do, except block devices, which
/// firmware should reach without excessive identity mapping; they too do outside the first segment.
pub open spec fn spec_use_64bit_bar(segment_id: u16, device_type: u32) -> bool {
    segment_id > 0 || device_type != TYPE_BLOCK
}

/// Whether a device gets a 64-bit base address register.
pub fn use_64bit_bar(segment_id: u16, device_type: u32) -> (wide: bool)
    ensures
        wide == spec_use_64bit_bar(segment_id, device_type),
{
    segment_id > 0 || device_type != TYPE_BLOCK
}

/// The steps that follow once a device has its address on the PCI bus.
pub open spec fn bdf_plan(device: DeviceHandle, info: VirtioDevice, bdf: u32) -> Seq<Task> {
    seq![
        attach_task(
            device,
            AttachAction::CreateVirtioPci {
                msix_num: spec_msix_num(info.queues),
                bdf,
                use_64bit_bar: spec_use_64bit_bar(PCI_SEGMENT_ID, info.device_type),
            },
        ),
        attach_task(device, AttachAction::Pci(add_plan(bdf))),
        attach_task(device, AttachAction::ConfigBarAddress),
    ]
}

/// Plans what follows once a device has its address on the PCI bus.
pub fn attach_at_bdf(device: DeviceHandle, info: &VirtioDevice, bdf: u32) -> (plan: Vec<Task>)
    requires
        info.queues < usize::MAX,
    ensures
        plan@ == bdf_plan(device, *info, bdf),
{
    let mut plan: Vec<Task> = Vec::new();
    plan.push(
        Task::Host(
            Action::Attach(
                device,
                AttachAction::CreateVirtioPci {
                    msix_num: msix_num(info.queues),
                    bdf,
                    use_64bit_bar: use_64bit_bar(PCI_SEGMENT_ID, info.device_type),
                },
            ),
        ),
    );
    plan.push(Task::Host(Action::Attach(device, AttachAction::Pci(add_pci_device(bdf)))));
    plan.push(Task::Host(Action::Attach(device, AttachAction::ConfigBarAddress)));
    assert(plan@ =~= bdf_plan(device, *info, bdf));
    plan
}

/// The steps of placing a virtio device on the PCI bus, for that device.
pub(crate) fn attach_pci_tasks(device: DeviceHandle, actions: Vec<PciAction>) -> (tasks: Vec<Task>)
    ensures
        tasks@ == actions@.map_values(
            |action: PciAction| attach_task(device, AttachAction::Pci(action)),
        ),
{
    let mut tasks: Vec<Task> = Vec::new();
    let mut i: usize = 0;
    while i < actions.len()
        invariant
            i <= actions@.len(),
            tasks@ == actions@.take(i as int).map_values(
                |action: PciAction| attach_task(device, AttachAction::Pci(action)),
            ),
        decreases actions@.len() - i,
    {
        tasks.push(Task::Host(Action::Attach(device, AttachAction::Pci(actions[i]))));
        i = i + 1;
        assert(tasks@ =~= actions@.take(i as int).map_values(
            |action: PciAction| attach_task(device, AttachAction::Pci(action)),
        ));
    }
    assert(actions@.take(actions@.len() as int) =~= actions@);
    tasks
}

/// The address by which the guest notifies the device of a queue.
pub open spec fn notify_address(bar_addr: u64, queue: int) -> int {
    bar_addr + NOTIFICATION_BAR_OFFSET + queue * NOTIFY_OFF_MULTIPLIER
}

/// The notification addresses of all `queue_events` queues are addresses.
pub open spec fn has_notify_addresses(bar_addr: u64, queue_events: usize) -> bool {
    queue_events > 0 ==> notify_address(bar_addr, queue_events - 1) <= u64::MAX
}

/// The step that ties the notification address of a queue to its event.
pub open spec fn notify_task(device: DeviceHandle, bar_addr: u64, queue: int) -> Task {
    attach_task(
        device,
        AttachAction::RegisterIoevent {
            queue: queue as usize,
            addr: notify_address(bar_addr, queue) as u64,
        },
    )
}

/// The steps that follow once it is known where the configuration of the PCI transport lies: the
/// notification address of each queue is tied to the event of the queue.
pub open spec fn notify_plan(device: DeviceHandle, queue_events: usize, bar_addr: u64) -> Seq<Task> {
    Seq::new(queue_events as nat, |queue: int| notify_task(device, bar_addr, queue))
}

/// Whether the notification addresses of all `queue_events` queues are addresses.
pub fn are_notify_addresses(bar_addr: u64, queue_events: usize) -> (fits: bool)
    ensures
        fits == has_notify_addresses(bar_addr, queue_events),
{
    if queue_events == 0 {
        true
    } else if bar_addr > u64::MAX - NOTIFICATION_BAR_OFFSET {
        false
    } else {
        let room: u64 = u64::MAX - (bar_addr + NOTIFICATION_BAR_OFFSET);
        (queue_events - 1) as u64 <= room / (NOTIFY_OFF_MULTIPLIER as u64)
    }
}

/// Plans to tie the notification address of each queue to the event of the queue.
pub fn register_notifications(device: DeviceHandle, queue_events: usize, bar_addr: u64) -> (plan:
    Vec<Task>)
    requires
        has_notify_addresses(bar_addr, queue_events),
    ensures
        plan@ == notify_plan(device, queue_events, bar_addr),
{
    let mut plan: Vec<Task> = Vec::new();
    let mut queue: usize = 0;
    while queue < queue_events
        invariant
            queue <= queue_events,
            has_notify_addresses(bar_addr, queue_events),
            plan@ == notify_plan(device, queue, bar_addr),
        decreases queue_events - queue,
    {
        assert(notify_address(bar_addr, queue as int) <= notify_address(
            bar_addr,
            queue_events - 1,
        ));
        let notify_base: u64 = bar_addr + NOTIFICATION_BAR_OFFSET;
        let addr: u64 = notify_base + queue as u64 * (NOTIFY_OFF_MULTIPLIER as u64);
        plan.push(Task::Host(Action::Attach(device, AttachAction::RegisterIoevent { queue, addr })));
        queue = queue + 1;
        assert(plan@ =~= notify_plan(device, queue, bar_addr));
    }
    plan
}

/// The notification addresses of a device are distinct, in the order of the queues, and four bytes
/// apart.
pub proof fn law_notify_addresses(bar_addr: u64, a: int, b: int)
    requires
        0 <= a < b,
    ensures
        notify_address(bar_addr, a) + 4 <= notify_address(bar_addr, b),
        notify_address(bar_addr, a + 1) == notify_address(bar_addr, a) + 4,
        notify_address(bar_addr, 0) == bar_addr + NOTIFICATION_BAR_OFFSET,
{
}

/// The steps for one block device: a root device first puts its arguments on the kernel command
/// line.
pub open spec fn block_plan(i: int, block: BlockDevice, pci: bool) -> Seq<Task> {
    let attach = virtio_plan(DeviceHandle::Block(i as usize), pci, block.is_vhost_user);
    if block.root_device {
        seq![Task::RootArguments(i as usize)] + attach
    } else {
        attach
    }
}

/// The steps for all block devices, device by device.
pub open spec fn blocks_plan(blocks: Seq<BlockDevice>, pci: bool) -> Seq<Task>
    decreases blocks.len(),
{
    if blocks.len() == 0 {
        seq![]
    } else {
        blocks_plan(blocks.drop_last(), pci) + block_plan(blocks.len() - 1, blocks.last(), pci)
    }
}

/// Plans to attach the block devices.
pub fn attach_block_devices(blocks: &Vec<BlockDevice>, pci: bool) -> (plan: Vec<Task>)
    ensures
        plan@ == blocks_plan(blocks@, pci),
{
    let mut plan: Vec<Task> = Vec::new();
    let mut i: usize = 0;
    while i < blocks.len()
        invariant
            i <= blocks@.len(),
            plan@ == blocks_plan(blocks@.take(i as int), pci),
        decreases blocks@.len() - i,
    {
        let block: &BlockDevice = &blocks[i];
        proof {
            assert(blocks@.take(i + 1).drop_last() =~= blocks@.take(i as int));
            assert(blocks@.take(i + 1).last() == *block);
        }
        if block.root_device {
            plan.push(Task::RootArguments(i));
        }
        let mut attach: Vec<Task> = attach_virtio_device(
            DeviceHandle::Block(i),
            pci,
            block.is_vhost_user,
        );
        plan.append(&mut attach);
        assert(plan@ =~= blocks_plan(blocks@.take(i + 1), pci));
        i = i + 1;
    }
    assert(blocks@.take(blocks@.len() as int) =~= blocks@);
    plan
}

/// The steps for the first `count` network devices, device by device.
pub open spec fn nets_plan(count: nat, pci: bool) -> Seq<Task>
    decreases count,
{
    if count == 0 {
        seq![]
    } else {
        nets_plan((count - 1) as nat, pci) + virtio_plan(
            DeviceHandle::Net((count - 1) as usize),
            pci,
            false,
        )
    }
}

/// Plans to attach the network devices.
pub fn attach_net_devices(net_devices: &Vec<VirtioDevice>, pci: bool) -> (plan: Vec<Task>)
    ensures
        plan@ == nets_plan(net_devices@.len(), pci),
{
    let mut plan: Vec<Task> = Vec::new();
    let mut i: usize = 0;
    while i < net_devices.len()
        invariant
            i <= net_devices@.len(),
            plan@ == nets_plan(i as nat, pci),
        decreases net_devices@.len() - i,
    {
        let mut attach: Vec<Task> = attach_virtio_device(DeviceHandle::Net(i), pci, false);
        plan.append(&mut attach);
        assert(plan@ =~= nets_plan((i + 1) as nat, pci));
        i = i + 1;
    }
    plan
}

/// Plans to attach the balloon device.
pub fn attach_balloon_device(pci: bool) -> (plan: Vec<Task>)
    ensures
        plan@ == virtio_plan(DeviceHandle::Balloon, pci, false),
{
    attach_virtio_device(DeviceHandle::Balloon, pci, false)
}

/// Plans to attach the vsock device.
pub fn attach_unixsock_vsock_device(pci: bool) -> (plan: Vec<Task>)
    ensures
        plan@ == virtio_plan(DeviceHandle::Vsock, pci, false),
{
    attach_virtio_device(DeviceHandle::Vsock, pci, false)
}

/// Plans to attach the entropy device.
pub fn attach_entropy_device(pci: bool) -> (plan: Vec<Task>)
    ensures
        plan@ == virtio_plan(DeviceHandle::Entropy, pci, false),
{
    attach_virtio_device(DeviceHandle::Entropy, pci, false)
}

/// A device has one interrupt vector more than queues, as long as 16 bits hold the number; what they do
/// not hold is cut off.
pub proof fn law_one_vector_more_than_queues(queues: usize)
    ensures
        queues < 0xffff ==> spec_msix_num(queues) == queues + 1,
        (spec_msix_num(queues) - queues - 1) % 0x1_0000 == 0,
{
}

/// On the first segment, block devices and no others go without a 64-bit base address register; on
/// the others, every device gets one.
pub proof fn law_block_devices_have_32bit_bars(segment_id: u16, device_type: u32)
    ensures
        !spec_use_64bit_bar(segment_id, device_type) <==> segment_id == 0 && device_type == 2,
{
}

/// Every queue of a device, and nothing else, has its event tied to an address of its own: the first
/// one at its offset from the base of the device, and the others a dword apart.
pub proof fn law_every_queue_has_its_address(
    device: DeviceHandle,
    queue_events: usize,
    bar_addr: u64,
)
    requires
        has_notify_addresses(bar_addr, queue_events),
    ensures
        notify_plan(device, queue_events, bar_addr).len() == queue_events,
        forall|q: usize|
            q < queue_events ==> (#[trigger] notify_plan(device, queue_events, bar_addr)[q as int]
                matches Task::Host(
                Action::Attach(found, AttachAction::RegisterIoevent { queue, addr }),
            ) && found == device && queue == q && addr == bar_addr + 0x6000 + 4 * q),
{
    assert forall|q: usize| q < queue_events implies (#[trigger] notify_plan(
        device,
        queue_events,
        bar_addr,
    )[q as int] matches Task::Host(
        Action::Attach(found, AttachAction::RegisterIoevent { queue, addr }),
    ) && found == device && queue == q && addr == bar_addr + 0x6000 + 4 * q) by {
        assert(notify_address(bar_addr, q as int) <= notify_address(bar_addr, queue_events - 1));
    }
}

/// The notification addresses of a device are addresses where and only where that of each queue is.
pub proof fn law_room_for_notifications(bar_addr: u64, queue_events: usize)
    ensures
        has_notify_addresses(bar_addr, queue_events) <==> forall|q: int|
            0 <= q < queue_events ==> bar_addr + 0x6000 + #[trigger] (4 * q) <= u64::MAX,
{
    if queue_events > 0 {
        assert(4 * (queue_events - 1) == (queue_events - 1) * NOTIFY_OFF_MULTIPLIER);
    }
}

/// A device that has its address on the PCI bus is wrapped at that address, with a vector for each of
/// its queues and one more, placed in the slot of the address, and asked where its configuration lies,
/// in that order.
pub proof fn law_device_is_created_at_its_address(
    device: DeviceHandle,
    info: VirtioDevice,
    bus: int,
    slot: int,
    function: int,
)
    requires
        0 <= bus,
        0 <= slot < 32,
        0 <= function < 8,
        bus * 256 + slot * 8 + function <= u32::MAX,
    ensures
        ({
            let address = (bus * 256 + slot * 8 + function) as u32;
            let plan = bdf_plan(device, info, address);
            &&& plan.len() == 3
            &&& plan[0] == Task::Host(
                Action::Attach(
                    device,
                    AttachAction::CreateVirtioPci {
                        msix_num: ((info.queues + 1) % 0x1_0000) as u16,
                        bdf: address,
                        use_64bit_bar: info.device_type != 2,
                    },
                ),
            )
            &&& plan[1] == Task::Host(
                Action::Attach(
                    device,
                    AttachAction::Pci(PciAction::AllocateBars { device: slot as u32 }),
                ),
            )
            &&& plan[2] == Task::Host(Action::Attach(device, AttachAction::ConfigBarAddress))
        }),
{
    law_device_is_read_from_bdf(bus, slot, function);
}

/// The steps of attaching two devices differ in the device and in nothing else.
pub proof fn law_devices_are_attached_alike(
    a: DeviceHandle,
    b: DeviceHandle,
    pci: bool,
    is_vhost_user: bool,
    i: int,
)
    requires
        0 <= i < virtio_plan(a, pci, is_vhost_user).len(),
    ensures
        virtio_plan(b, pci, is_vhost_user).len() == virtio_plan(a, pci, is_vhost_user).len(),
        exists|action: AttachAction|
            {
                &&& virtio_plan(a, pci, is_vhost_user)[i] == #[trigger] attach_task(a, action)
                &&& virtio_plan(b, pci, is_vhost_user)[i] == attach_task(b, action)
                &&& action == if i == 0 {
                    AttachAction::Subscribe
                } else if pci {
                    AttachAction::NextDeviceBdf
                } else {
                    AttachAction::RegisterMmio { is_vhost_user }
                }
            },
{
    let action = virtio_plan(a, pci, is_vhost_user)[i]->Host_0->Attach_1;
    assert(virtio_plan(a, pci, is_vhost_user)[i] == attach_task(a, action));
}

/// A root device, and no other, puts its arguments on the command line, and that before it is attached;
/// apart from that, root devices are attached like others.
pub proof fn law_root_device_is_named_before_it_is_attached(i: usize, block: BlockDevice, pci: bool)
    ensures
        ({
            let plan = block_plan(i as int, block, pci);
            let attach = virtio_plan(DeviceHandle::Block(i), pci, block.is_vhost_user);
            &&& block.root_device ==> plan.len() == attach.len() + 1 && plan[0]
                == Task::RootArguments(i) && plan.drop_first() == attach
            &&& !block.root_device ==> plan == attach
        }),
{
    let plan = block_plan(i as int, block, pci);
    if block.root_device {
        assert(plan.drop_first() =~= virtio_plan(
            DeviceHandle::Block(i),
            pci,
            block.is_vhost_user,
        ));
    }
}

} // verus!
