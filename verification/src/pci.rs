//! Placing devices on the PCI bus.
use crate::resources::Arch;
use crate::task::{PciAction, PciBarConfiguration, PciBarRegionType};
use vstd::prelude::*;

verus! {

/// The segment that devices are placed on.
pub const PCI_SEGMENT_ID: u16 = 0;

/// The address on the bus of the only function of the device with the given number: the three
/// lowest bits are the function, and the bus is the first.
pub open spec fn spec_device_bdf(device_id: u32) -> u32 {
    ((device_id * 8) % 0x1_0000_0000) as u32
}

/// The device number in an address on the bus: the five bits above the function.
pub open spec fn spec_bdf_device(bdf: u32) -> u32 {
    ((bdf / 8) % 32) as u32
}

/// The address on the bus of the device with the given number.
///
/// The number is shifted since the three lowest bits are dedicated to the function, and no device
/// has more than one. As there is one bus only, with number zero, nothing else is added.
pub fn device_bdf(device_id: u32) -> (bdf: u32)
    ensures
        bdf == spec_device_bdf(device_id),
{
    assert(device_id << 3 == (device_id * 8) % 0x1_0000_0000) by (bit_vector);
    device_id << 3
}

/// The device number in an address on the bus.
pub fn bdf_device(bdf: u32) -> (device: u32)
    ensures
        device == spec_bdf_device(bdf),
{
    assert((bdf >> 3) & 0x1f == (bdf / 8) % 32) by (bit_vector);
    (bdf >> 3) & 0x1f
}

/// The device number of an address is the one that the address was made of, for each of the
/// numbers that a bus has.
pub proof fn law_device_of_bdf(device_id: u32)
    requires
        device_id < 32,
    ensures
        spec_bdf_device(spec_device_bdf(device_id)) == device_id,
{
}

/// Devices with different numbers have different addresses, and none shares the function bits.
pub proof fn law_bdf_is_unique(a: u32, b: u32)
    requires
        a < 32,
        b < 32,
    ensures
        spec_device_bdf(a) == spec_device_bdf(b) ==> a == b,
        spec_device_bdf(a) % 8 == 0,
{
}

/// Where one base address register puts its device: memory regions go on the MMIO bus, and an I/O
/// region on the port I/O bus, which only x86_64 machines have.
pub open spec fn bar_action(arch: Arch, bar: PciBarConfiguration) -> Seq<PciAction> {
    match bar.region_type {
        PciBarRegionType::IoRegion => if arch == Arch::X86_64 {
            seq![PciAction::InsertIoBus { addr: bar.addr, size: bar.size }]
        } else {
            seq![]
        },
        _ => seq![PciAction::InsertMmioBus { addr: bar.addr, size: bar.size }],
    }
}

/// Where the base address registers put their device, register by register.
pub open spec fn mapping_plan(arch: Arch, bars: Seq<PciBarConfiguration>) -> Seq<PciAction>
    decreases bars.len(),
{
    if bars.len() == 0 {
        seq![]
    } else {
        mapping_plan(arch, bars.drop_last()) + bar_action(arch, bars.last())
    }
}

/// Plans the insertion of a device in the buses, as its base address registers say.
pub fn register_pci_device_mapping(arch: Arch, bars: &Vec<PciBarConfiguration>) -> (plan: Vec<
    PciAction,
>)
    ensures
        plan@ == mapping_plan(arch, bars@),
{
    let mut plan: Vec<PciAction> = Vec::new();
    let mut i: usize = 0;
    while i < bars.len()
        invariant
            i <= bars@.len(),
            plan@ == mapping_plan(arch, bars@.take(i as int)),
        decreases bars@.len() - i,
    {
        let bar: PciBarConfiguration = bars[i];
        proof {
            assert(bars@.take(i + 1).drop_last() =~= bars@.take(i as int));
            assert(bars@.take(i + 1).last() == bar);
        }
        match bar.region_type {
            PciBarRegionType::IoRegion => {
                match arch {
                    Arch::X86_64 => {
                        plan.push(PciAction::InsertIoBus { addr: bar.addr, size: bar.size });
                    },
                    Arch::Aarch64 => {},
                }
            },
            PciBarRegionType::Memory32BitRegion | PciBarRegionType::Memory64BitRegion => {
                plan.push(PciAction::InsertMmioBus { addr: bar.addr, size: bar.size });
            },
        }
        assert(plan@ =~= mapping_plan(arch, bars@.take(i + 1)));
        i = i + 1;
    }
    assert(bars@.take(bars@.len() as int) =~= bars@);
    plan
}

/// Plans what follows once the base address registers of the device in slot `device` are
/// allocated: the device is added to the bus and then inserted where its registers say.
pub open spec fn bars_plan(arch: Arch, device: u32, bars: Seq<PciBarConfiguration>) -> Seq<
    PciAction,
> {
    seq![PciAction::AddDevice { device }] + mapping_plan(arch, bars)
}

/// Plans what follows once the base address registers of the device in slot `device` are
/// allocated.
pub fn add_allocated_device(arch: Arch, device: u32, bars: &Vec<PciBarConfiguration>) -> (plan: Vec<
    PciAction,
>)
    ensures
        plan@ == bars_plan(arch, device, bars@),
{
    let mut plan: Vec<PciAction> = Vec::new();
    plan.push(PciAction::AddDevice { device });
    let mut mapping: Vec<PciAction> = register_pci_device_mapping(arch, bars);
    plan.append(&mut mapping);
    assert(plan@ =~= bars_plan(arch, device, bars@));
    plan
}

/// The first step of placing the device with the given address on the bus; the others follow from
/// the base address registers that it gets.
pub open spec fn add_plan(bdf: u32) -> PciAction {
    PciAction::AllocateBars { device: spec_bdf_device(bdf) }
}

/// Plans to place the device with the given address on the bus.
pub fn add_pci_device(bdf: u32) -> (action: PciAction)
    ensures
        action == add_plan(bdf),
{
    PciAction::AllocateBars { device: bdf_device(bdf) }
}

/// A machine without a port I/O bus has the memory regions of a device inserted in the MMIO bus, in
/// the order of the registers, and passes over the I/O regions.
pub proof fn law_aarch64_mapping(bars: Seq<PciBarConfiguration>)
    ensures
        mapping_plan(Arch::Aarch64, bars) == bars.filter(
            |bar: PciBarConfiguration| bar.region_type != PciBarRegionType::IoRegion,
        ).map_values(
            |bar: PciBarConfiguration|
                PciAction::InsertMmioBus { addr: bar.addr, size: bar.size },
        ),
    decreases bars.len(),
{
    let is_memory = |bar: PciBarConfiguration| bar.region_type != PciBarRegionType::IoRegion;
    let insert = |bar: PciBarConfiguration|
        PciAction::InsertMmioBus { addr: bar.addr, size: bar.size };
    reveal(Seq::filter);
    if bars.len() > 0 {
        law_aarch64_mapping(bars.drop_last());
        let before = bars.drop_last().filter(is_memory);
        assert(bars.filter(is_memory) == if is_memory(bars.last()) {
            before.push(bars.last())
        } else {
            before
        });
        assert(before.push(bars.last()).map_values(insert) =~= before.map_values(insert).push(
            insert(bars.last()),
        ));
    }
    assert(mapping_plan(Arch::Aarch64, bars) =~= bars.filter(is_memory).map_values(insert));
}

/// On x86_64 there is one insertion for each base address register, at the same position, with the
/// same address and size, and on the port I/O bus where and only where it maps an I/O region.
pub proof fn law_x86_64_mapping(bars: Seq<PciBarConfiguration>)
    ensures
        mapping_plan(Arch::X86_64, bars).len() == bars.len(),
        forall|i: int|
            0 <= i < bars.len() ==> #[trigger] mapping_plan(Arch::X86_64, bars)[i] == if bars[i].region_type
                == PciBarRegionType::IoRegion {
                PciAction::InsertIoBus { addr: bars[i].addr, size: bars[i].size }
            } else {
                PciAction::InsertMmioBus { addr: bars[i].addr, size: bars[i].size }
            },
    decreases bars.len(),
{
    if bars.len() > 0 {
        law_x86_64_mapping(bars.drop_last());
    }
}

/// The address of a device holds its number and nothing else: it is on the first bus, and its function
/// is the first.
pub proof fn law_bdf_is_on_first_bus(device_id: u32)
    requires
        device_id < 32,
    ensures
        spec_device_bdf(device_id) == device_id * 8,
        spec_device_bdf(device_id) < 256,
        spec_device_bdf(device_id) % 8 == 0,
{
}

/// Addresses of devices lie as far apart as their numbers, eight functions each, as long as they are
/// numbers at all. What does not fit is cut off at the top.
pub proof fn law_bdf_distance(a: u32, b: u32)
    ensures
        (spec_device_bdf(b) - spec_device_bdf(a) - (b - a) * 8) % 0x1_0000_0000 == 0,
        a <= b < 0x2000_0000 ==> spec_device_bdf(b) == spec_device_bdf(a) + (b - a) * 8,
        spec_device_bdf(0) == 0,
{
}

/// The device number is read from its five bits of an address, whatever the bus above and the function
/// below them.
pub proof fn law_device_is_read_from_bdf(bus: int, device: int, function: int)
    requires
        0 <= bus,
        0 <= device < 32,
        0 <= function < 8,
        bus * 256 + device * 8 + function <= u32::MAX,
    ensures
        spec_bdf_device((bus * 256 + device * 8 + function) as u32) == device,
{
}

/// A device is added to the bus in the slot that its registers were allocated for, and then inserted
/// once for each register that has a bus, in the order of the registers.
pub proof fn law_device_is_added_and_then_inserted(
    arch: Arch,
    device: u32,
    bars: Seq<PciBarConfiguration>,
)
    ensures
        bars_plan(arch, device, bars).len() > 0,
        bars_plan(arch, device, bars)[0] == (PciAction::AddDevice { device }),
        bars_plan(arch, device, bars).skip(1) == mapping_plan(arch, bars),
        bars.len() == 0 ==> bars_plan(arch, device, bars).len() == 1,
{
    assert(bars_plan(arch, device, bars).skip(1) =~= mapping_plan(arch, bars));
}

} // verus!
