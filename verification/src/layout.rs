//! Where devices live in the guest physical address space.
use vm_memory::Address;
use vm_memory::GuestAddress;
use vstd::arithmetic::power2::{lemma2_to64, lemma2_to64_rest, lemma_pow2_strictly_increases, pow2};
use vstd::bits::lemma_u64_shl_is_mul;
use vstd::prelude::*;

verus! {

/// The width of the guest physical addresses, in bits.
pub const PHYS_BITS: u8 = 46;

/// The part at the end of the addressable space that no device may use.
pub const ADDRESS_SPACE_RESERVE: u64 = 0x1_0000;

/// The part of the addressable space, at its end, that platform devices use.
pub const PLATFORM_DEVICE_AREA_SIZE: u64 = 0x10_0000;

/// Where the area of the 64-bit PCI devices starts when guest memory ends below the 32-bit hole.
pub const MEM_64BIT_START: u64 = 0x1_0000_0000;

/// The alignment of the area of the 64-bit PCI devices behind guest memory.
pub const DEVICE_AREA_ALIGNMENT: u64 = 0x800_0000;

/// The size of the I/O port space.
pub const IO_PORT_SPACE_SIZE: u64 = 0x1_0000;

/// The number of pins of the I/O interrupt controller.
pub const NUM_IOAPIC_PINS: usize = 24;

/// The first pin that devices may use.
pub const X86_64_IRQ_BASE: u32 = 5;

/// The number of slots of a PCI bus.
pub const PCI_SLOTS: usize = 32;

/// The multiple of `alignment` at or next above `addr`.
pub open spec fn align_up(addr: int, alignment: int) -> int {
    ((addr + alignment - 1) / alignment) * alignment
}

/// Calls `vm_memory::Address::unchecked_align_up` on a guest address: the next multiple of a power
/// of two. The address must leave room for the mask that the call adds.
#[verifier::external_body]
pub(crate) fn address_align_up(addr: u64, power_of_two: u64) -> (aligned: u64)
    requires
        exists|n: nat| n < 64 && power_of_two == #[trigger] pow2(n),
        addr + (power_of_two - 1) <= u64::MAX,
    ensures
        aligned == align_up(addr as int, power_of_two as int),
{
    GuestAddress(addr).unchecked_align_up(power_of_two).0
}

/// Calls `vm_memory::Address::unchecked_sub` on a guest address: the address less `other`.
#[verifier::external_body]
pub(crate) fn address_sub(addr: u64, other: u64) -> (difference: u64)
    requires
        other <= addr,
    ensures
        difference == addr - other,
{
    GuestAddress(addr).unchecked_sub(other).0
}

/// Calls `vm_memory::Address::unchecked_offset_from` on two guest addresses: how far the first
/// lies behind the second.
#[verifier::external_body]
pub(crate) fn address_offset_from(addr: u64, base: u64) -> (offset: u64)
    requires
        base <= addr,
    ensures
        offset == addr - base,
{
    GuestAddress(addr).unchecked_offset_from(GuestAddress(base))
}

/// The size of the space that devices may use where guest physical addresses have `phys_bits` bits.
///
/// The space is 64k smaller than what can be addressed, for these reasons:
///  - Its end must lie at least 4k below the end of what can be addressed, to work around a Linux
///    bug that shows when devices are placed at the very end.
///  - Windows requires its size to be 64k aligned.
pub fn mmio_address_space_size(phys_bits: u8) -> (size: u64)
    requires
        16 <= phys_bits < 64,
    ensures
        size == pow2(phys_bits as nat) - ADDRESS_SPACE_RESERVE,
{
    proof {
        lemma_address_space(phys_bits as nat);
        lemma_u64_shl_is_mul(1, phys_bits as u64);
    }
    (1u64 << (phys_bits as u64)) - ADDRESS_SPACE_RESERVE
}

proof fn lemma_address_space(bits: nat)
    requires
        16 <= bits < 64,
    ensures
        0x1_0000 <= pow2(bits) <= 0x8000_0000_0000_0000,
{
    lemma2_to64();
    lemma2_to64_rest();
    if bits > 16 {
        lemma_pow2_strictly_increases(16, bits);
    }
    if bits < 63 {
        lemma_pow2_strictly_increases(bits, 63);
    }
}

/// The size of the device space is 64k aligned, and its end lies at least 4k below the end of what
/// can be addressed.
pub proof fn law_mmio_address_space_size(phys_bits: u8)
    requires
        16 <= phys_bits < 64,
    ensures
        (pow2(phys_bits as nat) - ADDRESS_SPACE_RESERVE) % 0x1_0000 == 0,
        (pow2(phys_bits as nat) - ADDRESS_SPACE_RESERVE) + 0x1000 <= pow2(phys_bits as nat),
{
    let high = (phys_bits - 16) as nat;
    vstd::arithmetic::power2::lemma_pow2_adds(high, 16);
    lemma2_to64();
    assert(pow2(phys_bits as nat) == pow2(high) * 0x1_0000);
    assert((pow2(high) * 0x1_0000 - 0x1_0000) % 0x1_0000 == 0) by (nonlinear_arith);
}

/// The addresses that the machine sets aside for devices below 4 GiB.
#[derive(Clone, Copy, Debug, PartialEq, Eq, Structural)]
pub struct ArchLayout {
    /// Guest memory that ends below this address ends below the 32-bit hole.
    pub mem_32bit_reserved_start: u64,
    /// Where the area of the 32-bit PCI devices starts.
    pub mem_32bit_devices_start: u64,
    /// The size of the area of the 32-bit PCI devices.
    pub mem_32bit_devices_size: u64,
}

/// The areas of the guest physical address space that are set aside for devices.
#[derive(Clone, Copy, Debug, PartialEq, Eq, Structural)]
pub struct PciLayout {
    /// Where the area of the 32-bit PCI devices starts, and its size.
    pub mem32_base: u64,
    pub mem32_size: u64,
    /// Where the area of the 64-bit PCI devices starts, and its size.
    pub mem64_base: u64,
    pub mem64_size: u64,
    /// Where the area of the platform devices starts, and its size.
    pub platform_base: u64,
    pub platform_size: u64,
}

/// The end of the space that devices may use.
pub open spec fn end_of_mmio_area() -> int {
    pow2(PHYS_BITS as nat) - ADDRESS_SPACE_RESERVE
}

/// The end of the area of the 64-bit PCI devices.
pub open spec fn end_of_device_area() -> int {
    end_of_mmio_area() - PLATFORM_DEVICE_AREA_SIZE
}

/// The start of the area of the 64-bit PCI devices: 4 GiB for guest memory whose last address lies
/// below the 32-bit hole, and otherwise the next aligned address behind guest memory.
pub open spec fn start_of_device_area(last_addr: u64, arch: ArchLayout) -> int {
    if last_addr < arch.mem_32bit_reserved_start {
        MEM_64BIT_START as int
    } else {
        align_up(last_addr as int, DEVICE_AREA_ALIGNMENT as int)
    }
}

/// Guest memory that ends at `last_addr` leaves the area of the 64-bit PCI devices in place.
pub open spec fn leaves_device_area(last_addr: u64, arch: ArchLayout) -> bool {
    start_of_device_area(last_addr, arch) <= end_of_device_area()
}

/// The areas for devices of a machine whose guest memory ends at `last_addr`.
pub open spec fn spec_pci_layout(last_addr: u64, arch: ArchLayout) -> PciLayout {
    PciLayout {
        mem32_base: arch.mem_32bit_devices_start,
        mem32_size: arch.mem_32bit_devices_size,
        mem64_base: start_of_device_area(last_addr, arch) as u64,
        mem64_size: (end_of_device_area() - start_of_device_area(last_addr, arch)) as u64,
        platform_base: end_of_device_area() as u64,
        platform_size: (end_of_mmio_area() - end_of_device_area()) as u64,
    }
}

pub(crate) proof fn lemma_device_space()
    ensures
        pow2(46) == 0x4000_0000_0000,
        end_of_mmio_area() == 0x3fff_ffff_0000,
        end_of_device_area() == 0x3fff_ffef_0000,
        pow2(27) == DEVICE_AREA_ALIGNMENT,
{
    lemma2_to64();
    lemma2_to64_rest();
}

/// A machine whose guest memory is yet to be allocated has room for devices.
pub(crate) proof fn lemma_no_memory_leaves_device_area(arch: ArchLayout)
    ensures
        leaves_device_area(0, arch),
{
    lemma_device_space();
}

/// Whether guest memory that ends at `last_addr` leaves the area of the 64-bit PCI devices in
/// place.
pub fn has_device_area(last_addr: u64, arch: &ArchLayout) -> (fits: bool)
    ensures
        fits == leaves_device_area(last_addr, *arch),
{
    proof {
        lemma_device_space();
    }
    if last_addr < arch.mem_32bit_reserved_start {
        true
    } else {
        let end: u64 = address_sub(mmio_address_space_size(PHYS_BITS), PLATFORM_DEVICE_AREA_SIZE);
        proof {
            assert(align_up(last_addr as int, 0x800_0000) >= last_addr);
        }
        if last_addr > end {
            false
        } else {
            assert(DEVICE_AREA_ALIGNMENT == pow2(27));
            address_align_up(last_addr, DEVICE_AREA_ALIGNMENT) <= end
        }
    }
}

/// Lays out the areas for devices of a machine whose guest memory ends at `last_addr`.
pub fn pci_layout(last_addr: u64, arch: &ArchLayout) -> (layout: PciLayout)
    requires
        leaves_device_area(last_addr, *arch),
    ensures
        layout == spec_pci_layout(last_addr, *arch),
{
    proof {
        lemma_device_space();
    }
    let end_of_mmio_area: u64 = mmio_address_space_size(PHYS_BITS);
    let start_of_device_area: u64 = if last_addr < arch.mem_32bit_reserved_start {
        MEM_64BIT_START
    } else {
        proof {
            assert(align_up(last_addr as int, 0x800_0000) >= last_addr);
            assert(DEVICE_AREA_ALIGNMENT == pow2(27));
        }
        address_align_up(last_addr, DEVICE_AREA_ALIGNMENT)
    };
    let end_of_device_area: u64 = address_sub(end_of_mmio_area, PLATFORM_DEVICE_AREA_SIZE);
    PciLayout {
        mem32_base: arch.mem_32bit_devices_start,
        mem32_size: arch.mem_32bit_devices_size,
        mem64_base: start_of_device_area,
        mem64_size: address_offset_from(end_of_device_area, start_of_device_area),
        platform_base: end_of_device_area,
        platform_size: address_offset_from(end_of_mmio_area, end_of_device_area),
    }
}

/// The interrupt line that all slots of the PCI bus share: the last pin.
pub open spec fn slot_irq() -> u8 {
    (NUM_IOAPIC_PINS - 1) as u8
}

/// The interrupt line of each slot of the PCI bus.
pub fn pci_irq_slots() -> (slots: [u8; 32])
    ensures
        slots@.len() == PCI_SLOTS,
        forall|i: int| 0 <= i < PCI_SLOTS ==> #[trigger] slots@[i] == slot_irq(),
{
    [(NUM_IOAPIC_PINS - 1) as u8; 32]
}

/// The area of the 64-bit PCI devices starts at 4 GiB, or within one alignment step of the last
/// address of guest memory. It is followed by the area of the platform devices without a gap, and
/// that ends with the space that devices may use.
pub proof fn law_device_areas(last_addr: u64, arch: ArchLayout)
    requires
        leaves_device_area(last_addr, arch),
    ensures
        ({
            let layout = spec_pci_layout(last_addr, arch);
            &&& layout.mem64_base + layout.mem64_size == layout.platform_base
            &&& layout.platform_base + layout.platform_size == end_of_mmio_area()
            &&& layout.platform_size == PLATFORM_DEVICE_AREA_SIZE
            &&& layout.mem64_base % DEVICE_AREA_ALIGNMENT == 0
            &&& last_addr < arch.mem_32bit_reserved_start ==> layout.mem64_base == MEM_64BIT_START
            &&& last_addr >= arch.mem_32bit_reserved_start ==> last_addr <= layout.mem64_base
                < last_addr + DEVICE_AREA_ALIGNMENT
        }),
{
    lemma_device_space();
}

/// The area of the 32-bit PCI devices is the one that the machine sets aside, whatever the size of
/// guest memory.
pub proof fn law_32bit_area_is_set_aside(last_addr: u64, arch: ArchLayout)
    requires
        leaves_device_area(last_addr, arch),
    ensures
        spec_pci_layout(last_addr, arch).mem32_base == arch.mem_32bit_devices_start,
        spec_pci_layout(last_addr, arch).mem32_size == arch.mem_32bit_devices_size,
{
}

/// The areas for devices depend on the size of guest memory only as far as the area of the 64-bit PCI
/// devices has to make way for it: the areas of two machines that are otherwise the same end at the
/// same address, and the platform devices live in the same place.
pub proof fn law_areas_of_two_machines(a: u64, b: u64, arch: ArchLayout)
    requires
        leaves_device_area(a, arch),
        leaves_device_area(b, arch),
    ensures
        ({
            let first = spec_pci_layout(a, arch);
            let second = spec_pci_layout(b, arch);
            &&& first.mem32_base == second.mem32_base
            &&& first.mem32_size == second.mem32_size
            &&& first.mem64_base + first.mem64_size == second.mem64_base + second.mem64_size
            &&& first.platform_base == second.platform_base
            &&& first.platform_size == second.platform_size
            &&& a <= b && arch.mem_32bit_reserved_start <= a ==> first.mem64_base
                <= second.mem64_base
        }),
{
    lemma_device_space();
}

/// There is room for the 64-bit PCI devices where guest memory ends below the 32-bit hole, and
/// otherwise where an aligned address lies between the end of guest memory and the platform devices.
pub proof fn law_room_for_devices(last_addr: u64, arch: ArchLayout)
    ensures
        leaves_device_area(last_addr, arch) <==> last_addr < arch.mem_32bit_reserved_start || exists|
            n: int,
        |
            last_addr <= #[trigger] (n * 0x800_0000) <= 0x3fff_ffef_0000,
{
    lemma_device_space();
    let start = align_up(last_addr as int, 0x800_0000);
    let n = (last_addr + 0x7ff_ffff) / 0x800_0000;
    assert(start == n * 0x800_0000);
    assert(last_addr <= start < last_addr + 0x800_0000);
    if last_addr >= arch.mem_32bit_reserved_start {
        if leaves_device_area(last_addr, arch) {
            assert(last_addr <= n * 0x800_0000 <= 0x3fff_ffef_0000);
        }
        if exists|k: int| last_addr <= #[trigger] (k * 0x800_0000) <= 0x3fff_ffef_0000 {
            let k = choose|k: int| last_addr <= #[trigger] (k * 0x800_0000) <= 0x3fff_ffef_0000;
            assert(n <= k);
        }
    }
}

} // verus!
