//! Passing devices of the host through to the guest.
use crate::pci::{
    add_pci_device, add_plan, device_bdf, law_bdf_distance, law_device_is_read_from_bdf,
    spec_device_bdf,
};
use crate::resources::{MemoryRegion, VfioDevice};
use crate::task::{Action, PciAction, Task, VfioAction};
use vstd::prelude::*;

verus! {

/// A request to KVM for a device.
#[derive(Clone, Copy, Debug, PartialEq, Eq, Structural)]
pub struct DeviceRequest {
    pub type_: u32,
    pub fd: u32,
    pub flags: u32,
}

/// The number that KVM has for the type of device through which VFIO devices are passed to the guest.
pub const KVM_DEV_TYPE_VFIO: u32 = 4;

/// Reads `kvm_bindings::kvm_device_type_KVM_DEV_TYPE_VFIO`, which is the same number on every
/// architecture.
#[verifier::external_body]
fn kvm_vfio_type() -> (number: u32)
    ensures
        number == KVM_DEV_TYPE_VFIO,
{
    kvm_bindings::kvm_device_type_KVM_DEV_TYPE_VFIO
}

/// The request for the device through which VFIO devices are passed to the guest.
pub fn create_passthrough_device() -> (request: DeviceRequest)
    ensures
        request == (DeviceRequest { type_: KVM_DEV_TYPE_VFIO, fd: 0, flags: 0 }),
{
    DeviceRequest { type_: kvm_vfio_type(), fd: 0, flags: 0 }
}

/// Hands out the numbers of the memory slots in which KVM maps the memory of VFIO devices.
#[derive(Clone, Copy, Debug, PartialEq, Eq, Structural)]
pub struct MemorySlots {
    /// The number that was handed out last.
    pub current: u32,
}

impl MemorySlots {
    /// The state once the next number was handed out.
    pub open spec fn advanced(self) -> MemorySlots {
        MemorySlots { current: (self.current + 1) as u32 }
    }

    /// The state once as many numbers were handed out.
    pub open spec fn after(self, calls: nat) -> MemorySlots
        decreases calls,
    {
        if calls == 0 {
            self
        } else {
            self.after((calls - 1) as nat).advanced()
        }
    }

    /// No number handed out yet; the first will be 2.
    pub fn new() -> (slots: MemorySlots)
        ensures
            slots.current == 1,
    {
        MemorySlots { current: 1 }
    }

    /// The next number: one more than the last.
    pub fn next_slot(&mut self) -> (slot: u32)
        requires
            old(self).current < u32::MAX,
        ensures
            *final(self) == old(self).advanced(),
            slot == final(self).current,
    {
        self.current = self.current + 1;
        self.current
    }
}

/// The character of a digit.
pub open spec fn digit(d: nat) -> char {
    (('0' as u32) + d) as char
}

/// The number in decimal notation.
pub open spec fn decimal(n: nat) -> Seq<char>
    decreases n,
{
    if n < 10 {
        seq![digit(n)]
    } else {
        decimal(n / 10) + seq![digit(n % 10)]
    }
}

/// Calls the `ToString` of `u32`, which writes the number in decimal notation.
#[verifier::external_body]
fn u32_to_string(n: u32) -> (text: String)
    ensures
        text@ == decimal(n as nat),
{
    n.to_string()
}

/// The name of the VFIO device with the given number on the PCI bus: the number.
pub fn vfio_device_name(device_id: u32) -> (name: String)
    ensures
        name@ == decimal(device_id as nat),
{
    u32_to_string(device_id)
}

/// The step `action` for the VFIO device with position `i`.
pub open spec fn vfio_task(i: usize, action: VfioAction) -> Task {
    Task::Host(Action::Vfio(i, action))
}

/// The first step for each of `count` VFIO devices.
pub open spec fn vfio_devices_plan(count: nat) -> Seq<Task> {
    Seq::new(count, |i: int| vfio_task(i as usize, VfioAction::NextDeviceId))
}

/// The first steps of passing devices through: the device of KVM that they share, and then, device
/// by device, a number on the PCI bus. The other steps of a device follow from its number.
pub open spec fn vfio_plan(count: nat) -> Seq<Task> {
    seq![Task::Host(Action::CreatePassthroughDevice)] + vfio_devices_plan(count)
}

/// Plans to pass the devices through.
pub fn add_vfio_devices(devices: &Vec<VfioDevice>) -> (plan: Vec<Task>)
    ensures
        plan@ == vfio_plan(devices@.len()),
{
    let mut plan: Vec<Task> = Vec::new();
    plan.push(Task::Host(Action::CreatePassthroughDevice));
    let mut i: usize = 0;
    assert(plan@ =~= vfio_plan(0));
    while i < devices.len()
        invariant
            i <= devices@.len(),
            plan@ == vfio_plan(i as nat),
        decreases devices@.len() - i,
    {
        plan.push(Task::Host(Action::Vfio(i, VfioAction::NextDeviceId)));
        i = i + 1;
        assert(plan@ =~= vfio_plan(i as nat));
    }
    plan
}

/// The step that lets the device reach a region of guest memory.
pub open spec fn dma_task(i: usize, region: MemoryRegion) -> Task {
    vfio_task(
        i,
        VfioAction::DmaMap { iova: region.start, size: region.len, user_addr: region.host_addr },
    )
}

/// The steps that let the device reach the whole of guest memory, region by region.
pub open spec fn dma_plan(i: usize, regions: Seq<MemoryRegion>) -> Seq<Task> {
    regions.map_values(|region: MemoryRegion| dma_task(i, region))
}

/// The steps that follow once a VFIO device has its number on the PCI bus.
pub open spec fn vfio_device_plan(i: usize, device_id: u32, regions: Seq<MemoryRegion>) -> Seq<
    Task,
> {
    let bdf = spec_device_bdf(device_id);
    seq![
        vfio_task(i, VfioAction::CreateContainer),
        vfio_task(i, VfioAction::OpenDevice),
        vfio_task(i, VfioAction::CreateDevice { id: device_id, bdf }),
        vfio_task(i, VfioAction::Pci(add_plan(bdf))),
    ] + dma_plan(i, regions)
}

/// Plans what follows once a VFIO device has its number on the PCI bus: it is opened, placed on the
/// bus and given access to guest memory.
pub fn add_vfio_device(i: usize, device_id: u32, regions: &Vec<MemoryRegion>) -> (plan: Vec<Task>)
    ensures
        plan@ == vfio_device_plan(i, device_id, regions@),
{
    let bdf: u32 = device_bdf(device_id);
    let mut plan: Vec<Task> = Vec::new();
    plan.push(Task::Host(Action::Vfio(i, VfioAction::CreateContainer)));
    plan.push(Task::Host(Action::Vfio(i, VfioAction::OpenDevice)));
    plan.push(Task::Host(Action::Vfio(i, VfioAction::CreateDevice { id: device_id, bdf })));
    plan.push(Task::Host(Action::Vfio(i, VfioAction::Pci(add_pci_device(bdf)))));
    let mut j: usize = 0;
    assert(plan@ =~= vfio_device_plan(i, device_id, regions@.take(0)));
    while j < regions.len()
        invariant
            j <= regions@.len(),
            plan@ == vfio_device_plan(i, device_id, regions@.take(j as int)),
        decreases regions@.len() - j,
    {
        let region: MemoryRegion = regions[j];
        plan.push(
            Task::Host(
                Action::Vfio(
                    i,
                    VfioAction::DmaMap {
                        iova: region.start,
                        size: region.len,
                        user_addr: region.host_addr,
                    },
                ),
            ),
        );
        j = j + 1;
        assert(plan@ =~= vfio_device_plan(i, device_id, regions@.take(j as int)));
    }
    assert(regions@.take(regions@.len() as int) =~= regions@);
    plan
}

/// The steps of placing a VFIO device on the PCI bus, for that device.
pub(crate) fn vfio_pci_tasks(device: usize, actions: Vec<PciAction>) -> (tasks: Vec<Task>)
    ensures
        tasks@ == actions@.map_values(
            |action: PciAction| vfio_task(device, VfioAction::Pci(action)),
        ),
{
    let mut tasks: Vec<Task> = Vec::new();
    let mut i: usize = 0;
    while i < actions.len()
        invariant
            i <= actions@.len(),
            tasks@ == actions@.take(i as int).map_values(
                |action: PciAction| vfio_task(device, VfioAction::Pci(action)),
            ),
        decreases actions@.len() - i,
    {
        tasks.push(Task::Host(Action::Vfio(device, VfioAction::Pci(actions[i]))));
        i = i + 1;
        assert(tasks@ =~= actions@.take(i as int).map_values(
            |action: PciAction| vfio_task(device, VfioAction::Pci(action)),
        ));
    }
    assert(actions@.take(actions@.len() as int) =~= actions@);
    tasks
}

/// Slot numbers that are handed out in turn are distinct, and none is a number that was handed out
/// before.
pub proof fn law_memory_slots(slots: MemorySlots, a: nat, b: nat)
    requires
        1 <= a < b,
        slots.current + b <= u32::MAX,
    ensures
        slots.current < slots.after(a).current < slots.after(b).current,
    decreases b,
{
    lemma_slots_after(slots, a);
    lemma_slots_after(slots, b);
}

proof fn lemma_slots_after(slots: MemorySlots, calls: nat)
    requires
        slots.current + calls <= u32::MAX,
    ensures
        slots.after(calls).current == slots.current + calls,
    decreases calls,
{
    if calls > 0 {
        lemma_slots_after(slots, (calls - 1) as nat);
    }
}

/// Slot numbers are handed out one by one: each is one more than the one before, and the first is one
/// more than the last that was handed out.
pub proof fn law_slots_are_consecutive(slots: MemorySlots, calls: nat)
    requires
        slots.current + calls < u32::MAX,
    ensures
        slots.after(calls).current == slots.current + calls,
        slots.after(calls + 1).current == slots.after(calls).current + 1,
{
    lemma_slots_after(slots, calls);
    lemma_slots_after(slots, calls + 1);
}

/// A device that has its number on the bus is opened, wrapped under that number at the address of that
/// number, placed in the slot of that number, and given access to each region of guest memory at the
/// address that the guest has for it, and to nothing else.
pub proof fn law_passthrough_at_its_number(i: usize, device_id: u32, regions: Seq<MemoryRegion>)
    ensures
        ({
            let plan = vfio_device_plan(i, device_id, regions);
            &&& plan.len() == 4 + regions.len()
            &&& plan[0] == Task::Host(Action::Vfio(i, VfioAction::CreateContainer))
            &&& plan[1] == Task::Host(Action::Vfio(i, VfioAction::OpenDevice))
            &&& plan[2] == Task::Host(
                Action::Vfio(
                    i,
                    VfioAction::CreateDevice {
                        id: device_id,
                        bdf: ((device_id * 8) % 0x1_0000_0000) as u32,
                    },
                ),
            )
            &&& plan[3] == Task::Host(
                Action::Vfio(i, VfioAction::Pci(PciAction::AllocateBars { device: device_id % 32 })),
            )
            &&& forall|k: int|
                0 <= k < regions.len() ==> #[trigger] plan[4 + k] == Task::Host(
                    Action::Vfio(
                        i,
                        VfioAction::DmaMap {
                            iova: regions[k].start,
                            size: regions[k].len,
                            user_addr: regions[k].host_addr,
                        },
                    ),
                )
        }),
{
    law_bdf_distance(0, device_id);
    let low = device_id as int % 0x2000_0000;
    assert((device_id * 8) % 0x1_0000_0000 == low * 8);
    assert(low * 8 == (low / 32) * 256 + (low % 32) * 8);
    law_device_is_read_from_bdf(low / 32, low % 32, 0);
}

/// The KVM device that all share is created first, and then each device of the list is asked for its
/// number, in the order of the list.
pub proof fn law_every_passthrough_has_its_turn(count: usize)
    ensures
        vfio_plan(count as nat).len() == count + 1,
        vfio_plan(count as nat)[0] == Task::Host(Action::CreatePassthroughDevice),
        forall|i: usize|
            i < count ==> #[trigger] vfio_plan(count as nat)[i + 1] == Task::Host(
                Action::Vfio(i, VfioAction::NextDeviceId),
            ),
{
}

} // verus!
