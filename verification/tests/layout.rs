use microvm_builder::layout::{
    has_device_area, mmio_address_space_size, pci_irq_slots, pci_layout, ArchLayout, PciLayout,
};

const ARCH: ArchLayout = ArchLayout {
    mem_32bit_reserved_start: 0xc000_0000,
    mem_32bit_devices_start: 0xc000_0000,
    mem_32bit_devices_size: 0x1000_0000,
};

#[test]
fn address_space_is_reduced_by_64k() {
    assert_eq!(mmio_address_space_size(46), (1u64 << 46) - 65536);
    assert_eq!(mmio_address_space_size(36), 0xf_ffff_0000);
    assert_eq!(mmio_address_space_size(16), 0);
    assert_eq!(mmio_address_space_size(63), 0x7fff_ffff_ffff_0000);
}

#[test]
fn address_space_is_64k_aligned() {
    for bits in 16..64 {
        assert_eq!(mmio_address_space_size(bits) % 0x1_0000, 0);
        assert!(mmio_address_space_size(bits) + 0x1000 <= 1u64 << bits);
    }
}

#[test]
fn small_memory_leaves_devices_above_4g() {
    assert_eq!(
        pci_layout(0x7ff_ffff, &ARCH),
        PciLayout {
            mem32_base: 0xc000_0000,
            mem32_size: 0x1000_0000,
            mem64_base: 0x1_0000_0000,
            mem64_size: 0x3ffe_ffef_0000,
            platform_base: 0x3fff_ffef_0000,
            platform_size: 0x10_0000,
        }
    );
    assert_eq!(pci_layout(0xbfff_ffff, &ARCH).mem64_base, 0x1_0000_0000);
}

#[test]
fn large_memory_moves_the_devices_behind_it() {
    // The last address of memory that ends at 5 GiB is aligned up to its end.
    let layout = pci_layout(0x1_3fff_ffff, &ARCH);
    assert_eq!(layout.mem64_base, 0x1_4000_0000);
    assert_eq!(layout.mem64_base + layout.mem64_size, layout.platform_base);
    // The alignment is 128 MiB.
    assert_eq!(pci_layout(0x1_4000_0001, &ARCH).mem64_base, 0x1_4800_0000);
    assert_eq!(pci_layout(0x1_4800_0000, &ARCH).mem64_base, 0x1_4800_0000);
    // Memory that ends just at the hole is no longer below it.
    assert_eq!(pci_layout(0xc000_0000, &ARCH).mem64_base, 0xc000_0000);
}

#[test]
fn memory_can_leave_no_room_for_devices() {
    assert!(has_device_area(0, &ARCH));
    assert!(has_device_area(0x1_3fff_ffff, &ARCH));
    assert!(has_device_area(0x3fff_f800_0000, &ARCH));
    assert!(!has_device_area(0x3fff_f800_0001, &ARCH));
    assert!(!has_device_area(0x3fff_ffef_0000, &ARCH));
    assert!(!has_device_area(u64::MAX, &ARCH));
    assert_eq!(pci_layout(0x3fff_f800_0000, &ARCH).mem64_size, 0x7ef_0000);
}

#[test]
fn slots_share_the_last_pin() {
    assert_eq!(pci_irq_slots(), [23u8; 32]);
}
