use linux_loader::cmdline::{Cmdline, Error};
use microvm_builder::error::{
    BuildMicrovmFromSnapshotError, MicrovmStateError, MmioError, StartMicrovmError, VmmError,
};
use microvm_builder::failure::{
    attach_failure, legacy_failure, may_fail, pci_failure, snapshot_failure, start_failure,
    vmm_failure,
};
use microvm_builder::pci::{
    add_allocated_device, add_pci_device, bdf_device, device_bdf, register_pci_device_mapping,
};
use microvm_builder::recipe::{restore_vcpus, scale_tsc};
use microvm_builder::resources::{
    has_filter, Arch, BlockDevice, DeviceHandle, MemoryRegion, ThreadCategory, VirtioDevice,
    TYPE_BLOCK,
};
use microvm_builder::root::insert_root_arguments;
use microvm_builder::task::{
    Action, AttachAction, LegacyAction, PciAction, PciBarConfiguration, PciBarRegionType,
    RestoreAction, SerialAction, Task, VfioAction, VmgenidAction, VmmAction,
};
use microvm_builder::vfio::{
    add_vfio_device, create_passthrough_device, vfio_device_name, DeviceRequest, MemorySlots,
};
use microvm_builder::virtio::{
    are_notify_addresses, attach_virtio_device, msix_num, register_notifications, use_64bit_bar,
};
use microvm_builder::vmm::{
    attach_vmgenid_device, set_stdout_nonblocking, setup_serial_device, StdoutUpdate,
};

fn root_device(partuuid: Option<&str>, read_only: bool) -> BlockDevice {
    BlockDevice {
        device: VirtioDevice {
            id: "root".to_string(),
            device_type: TYPE_BLOCK,
            queues: 1,
            queue_events: 1,
        },
        root_device: true,
        partuuid: partuuid.map(|p| p.to_string()),
        read_only,
        is_vhost_user: false,
    }
}

fn text(cmdline: &Cmdline) -> String {
    cmdline.as_cstring().unwrap().into_string().unwrap()
}

fn bar(addr: u64, region_type: PciBarRegionType) -> PciBarConfiguration {
    PciBarConfiguration { addr, size: 0x1000, region_type }
}

fn cause() -> String {
    "cause".to_string()
}

#[test]
fn root_arguments_stand_behind_the_others() {
    let mut cmdline = Cmdline::try_from("quiet", 64).unwrap();
    cmdline.insert_init_args("single").unwrap();
    insert_root_arguments(&mut cmdline, &root_device(None, true)).unwrap();
    assert_eq!(text(&cmdline), "quiet root=/dev/vda ro -- single");

    let mut cmdline = Cmdline::new(64).unwrap();
    insert_root_arguments(&mut cmdline, &root_device(Some("0eaa91a0-01"), false)).unwrap();
    assert_eq!(text(&cmdline), "root=PARTUUID=0eaa91a0-01 rw");
}

#[test]
fn root_argument_is_trimmed() {
    let mut cmdline = Cmdline::new(64).unwrap();
    insert_root_arguments(&mut cmdline, &root_device(Some("0eaa \t\u{a0}\u{2003}"), true)).unwrap();
    assert_eq!(text(&cmdline), "root=PARTUUID=0eaa ro");
}

#[test]
fn root_arguments_fill_the_command_line_to_its_end() {
    // The text and its nul take 23 bytes.
    let mut cmdline = Cmdline::try_from("quiet", 23).unwrap();
    insert_root_arguments(&mut cmdline, &root_device(None, true)).unwrap();
    assert_eq!(text(&cmdline), "quiet root=/dev/vda ro");

    // The first argument fits and stays, the second does not.
    let mut cmdline = Cmdline::try_from("quiet", 22).unwrap();
    let result = insert_root_arguments(&mut cmdline, &root_device(None, true));
    assert_eq!(result, Err(Error::TooLarge));
    assert_eq!(text(&cmdline), "quiet root=/dev/vda");

    let mut cmdline = Cmdline::try_from("quiet", 19).unwrap();
    let result = insert_root_arguments(&mut cmdline, &root_device(None, true));
    assert_eq!(result, Err(Error::TooLarge));
    assert_eq!(text(&cmdline), "quiet");
}

#[test]
fn root_argument_must_be_printable() {
    let mut cmdline = Cmdline::new(64).unwrap();
    let result = insert_root_arguments(&mut cmdline, &root_device(Some("0eaa\n1"), true));
    assert_eq!(result, Err(Error::InvalidAscii));
    let result = insert_root_arguments(&mut cmdline, &root_device(Some("gr\u{fc}n"), true));
    assert_eq!(result, Err(Error::InvalidAscii));
    assert_eq!(text(&cmdline), "");
}

#[test]
fn cmdline_errors_keep_their_description() {
    for (err, wanted) in [
        (Error::NullTerminator, "Null terminator detected in the command line structure."),
        (Error::NoBootArgsInserted, "Cmdline cannot contain only init args."),
        (Error::InvalidCapacity, "Invalid cmdline capacity provided."),
        (Error::InvalidAscii, "String contains a non-printable ASCII character."),
        (Error::HasSpace, "String contains a space."),
        (Error::HasEquals, "String contains an equals sign."),
        (Error::MissingVal("key".to_string()), "Missing value for key key."),
        (
            Error::MmioSize,
            "0-sized virtio MMIO device passed to the kernel command line builder.",
        ),
        (Error::TooLarge, "Inserting string would make command line too long."),
        (Error::NoQuoteSpace, "Value that contains spaces need to be surrounded by quotes"),
        (Error::InvalidQuote, "Double quote can not be in the middle of the value"),
    ] {
        let error = StartMicrovmError::from(err);
        assert!(matches!(error, StartMicrovmError::KernelCmdline(text) if text == wanted));
    }
}

#[test]
fn errors_are_wrapped() {
    assert!(matches!(
        StartMicrovmError::from(MmioError::Unknown),
        StartMicrovmError::RegisterMmioDevice(MmioError::Unknown)
    ));
    assert!(matches!(
        StartMicrovmError::from(VmmError::Unknown),
        StartMicrovmError::Internal(VmmError::Unknown)
    ));
    assert!(matches!(
        BuildMicrovmFromSnapshotError::from(StartMicrovmError::MissingKernelConfig),
        BuildMicrovmFromSnapshotError::CreateMicrovmAndVcpus(
            StartMicrovmError::MissingKernelConfig
        )
    ));
    assert!(matches!(
        BuildMicrovmFromSnapshotError::from(MicrovmStateError::RestoreDevices(cause())),
        BuildMicrovmFromSnapshotError::RestoreMmioDevice(MicrovmStateError::RestoreDevices(_))
    ));
}

#[test]
fn device_number_is_kept_in_the_address() {
    assert_eq!(device_bdf(0), 0);
    assert_eq!(device_bdf(1), 8);
    assert_eq!(device_bdf(31), 248);
    for device in 0..32 {
        assert_eq!(bdf_device(device_bdf(device)), device);
    }
    // The bus and the function are not part of the device number.
    assert_eq!(bdf_device(0x1_0100 | (7 << 3) | 5), 7);
    assert_eq!(device_bdf(0x4000_0001), 8);
    assert_eq!(add_pci_device(24), PciAction::AllocateBars { device: 3 });
}

#[test]
fn registers_say_where_a_device_is_inserted() {
    let bars = vec![
        bar(0xc000_0000, PciBarRegionType::Memory32BitRegion),
        bar(0xc00, PciBarRegionType::IoRegion),
        bar(0x1_0000_0000, PciBarRegionType::Memory64BitRegion),
    ];
    assert_eq!(
        register_pci_device_mapping(Arch::X86_64, &bars),
        vec![
            PciAction::InsertMmioBus { addr: 0xc000_0000, size: 0x1000 },
            PciAction::InsertIoBus { addr: 0xc00, size: 0x1000 },
            PciAction::InsertMmioBus { addr: 0x1_0000_0000, size: 0x1000 },
        ]
    );
    assert_eq!(
        register_pci_device_mapping(Arch::Aarch64, &bars),
        vec![
            PciAction::InsertMmioBus { addr: 0xc000_0000, size: 0x1000 },
            PciAction::InsertMmioBus { addr: 0x1_0000_0000, size: 0x1000 },
        ]
    );
    assert_eq!(
        add_allocated_device(Arch::X86_64, 9, &Vec::new()),
        vec![PciAction::AddDevice { device: 9 }]
    );
}

#[test]
fn vectors_are_one_more_than_queues() {
    assert_eq!(msix_num(0), 1);
    assert_eq!(msix_num(3), 4);
    assert_eq!(msix_num(0xfffe), 0xffff);
    assert_eq!(msix_num(0xffff), 0);
}

#[test]
fn block_devices_have_narrow_registers_on_the_first_segment() {
    assert!(!use_64bit_bar(0, TYPE_BLOCK));
    assert!(use_64bit_bar(1, TYPE_BLOCK));
    assert!(use_64bit_bar(0, 1));
}

#[test]
fn queues_have_their_own_notification_addresses() {
    let register = |queue: usize, addr: u64| {
        Task::Host(Action::Attach(
            DeviceHandle::Entropy,
            AttachAction::RegisterIoevent { queue, addr },
        ))
    };
    assert_eq!(
        register_notifications(DeviceHandle::Entropy, 2, 0x4000_0000),
        vec![register(0, 0x4000_6000), register(1, 0x4000_6004)]
    );
    assert!(register_notifications(DeviceHandle::Entropy, 0, u64::MAX).is_empty());
    assert!(are_notify_addresses(u64::MAX, 0));
    assert!(!are_notify_addresses(u64::MAX, 1));
    assert!(are_notify_addresses(u64::MAX - 0x6000, 1));
    assert!(!are_notify_addresses(u64::MAX - 0x6000, 2));
}

#[test]
fn transport_follows_the_bus() {
    let task = |action: AttachAction| Task::Host(Action::Attach(DeviceHandle::Block(3), action));
    assert_eq!(
        attach_virtio_device(DeviceHandle::Block(3), false, true),
        vec![
            task(AttachAction::Subscribe),
            task(AttachAction::RegisterMmio { is_vhost_user: true }),
        ]
    );
    assert_eq!(
        attach_virtio_device(DeviceHandle::Block(3), true, true),
        vec![task(AttachAction::Subscribe), task(AttachAction::NextDeviceBdf)]
    );
}

#[test]
fn passthrough_device_is_requested_of_kvm() {
    assert_eq!(create_passthrough_device(), DeviceRequest { type_: 4, fd: 0, flags: 0 });
}

#[test]
fn passthrough_device_is_named_by_its_number() {
    assert_eq!(vfio_device_name(0), "0");
    assert_eq!(vfio_device_name(17), "17");
    assert_eq!(vfio_device_name(u32::MAX), "4294967295");
}

#[test]
fn passthrough_device_without_memory_has_nothing_to_map() {
    let region = MemoryRegion { start: 0x1000, len: 0x2000, host_addr: 0x7f00_0000_0000 };
    assert_eq!(add_vfio_device(2, 5, &Vec::new()).len(), 4);
    let plan = add_vfio_device(2, 5, &vec![region]);
    assert_eq!(
        plan[2],
        Task::Host(Action::Vfio(2, VfioAction::CreateDevice { id: 5, bdf: 40 }))
    );
    assert_eq!(
        plan[4],
        Task::Host(Action::Vfio(
            2,
            VfioAction::DmaMap { iova: 0x1000, size: 0x2000, user_addr: 0x7f00_0000_0000 }
        ))
    );
}

#[test]
fn memory_slots_are_handed_out_in_turn() {
    let mut slots = MemorySlots::new();
    assert_eq!(slots.next_slot(), 2);
    assert_eq!(slots.next_slot(), 3);
    assert_eq!(slots.next_slot(), 4);
    assert_eq!(slots.current, 4);
}

#[test]
fn serial_device_has_two_events() {
    assert_eq!(
        setup_serial_device(),
        vec![
            SerialAction::CreateInterruptEvent,
            SerialAction::CreateKickStdinEvent,
            SerialAction::CreateDevice,
            SerialAction::Subscribe,
        ]
    );
}

#[test]
fn clone_notice_is_created_and_then_attached() {
    assert_eq!(
        attach_vmgenid_device(),
        vec![
            Task::Host(Action::Vmgenid(VmgenidAction::Create)),
            Task::Host(Action::Vmgenid(VmgenidAction::Attach)),
        ]
    );
}

#[test]
fn stdout_flags_are_extended() {
    assert_eq!(
        set_stdout_nonblocking(0x8001, 0x800),
        StdoutUpdate { get_failed: false, flags: 0x8801 }
    );
    assert_eq!(
        set_stdout_nonblocking(0x8801, 0x800),
        StdoutUpdate { get_failed: false, flags: 0x8801 }
    );
    assert_eq!(set_stdout_nonblocking(-1, 0x800), StdoutUpdate { get_failed: true, flags: -1 });
}

#[test]
fn only_vcpus_with_a_state_are_planned() {
    assert_eq!(restore_vcpus(2, 5).len(), 2);
    assert_eq!(restore_vcpus(5, 2).len(), 2);
    assert!(restore_vcpus(0, 2).is_empty());
    assert_eq!(
        restore_vcpus(2, 2)[1],
        Task::Host(Action::Restore(RestoreAction::RestoreVcpu { index: 1 }))
    );
}

#[test]
fn counters_of_all_vcpus_are_set() {
    assert!(scale_tsc(false, 3, 1000).is_empty());
    assert_eq!(
        scale_tsc(true, 2, 1000),
        vec![
            Task::Host(Action::Restore(RestoreAction::SetTsc { vcpu: 0, khz: 1000 })),
            Task::Host(Action::Restore(RestoreAction::SetTsc { vcpu: 1, khz: 1000 })),
        ]
    );
}

#[test]
fn filters_are_found_by_name() {
    let names = vec!["api".to_string(), "vcpu".to_string()];
    assert!(has_filter(&names, ThreadCategory::Vcpu));
    assert!(!has_filter(&names, ThreadCategory::Vmm));
    assert!(!has_filter(&Vec::new(), ThreadCategory::Vcpu));
}

#[test]
fn bus_says_why_it_refused_a_device() {
    assert!(matches!(
        pci_failure(PciAction::InsertIoBus { addr: 0, size: 1 }, cause()),
        VmmError::DeviceManager(MmioError::BusInsert(text)) if text == "cause"
    ));
    assert!(matches!(
        pci_failure(PciAction::InsertMmioBus { addr: 0, size: 1 }, cause()),
        VmmError::DeviceManager(MmioError::BusInsert(_))
    ));
    assert!(matches!(
        pci_failure(PciAction::AllocateBars { device: 1 }, cause()),
        VmmError::Unknown
    ));
    assert!(matches!(
        pci_failure(PciAction::AddDevice { device: 1 }, cause()),
        VmmError::Unknown
    ));
}

#[test]
fn failures_are_told_apart() {
    assert!(matches!(
        attach_failure(AttachAction::NextDeviceBdf, cause()),
        MmioError::Unknown
    ));
    assert!(matches!(vmm_failure(VmmAction::InitMemory, cause()), VmmError::Host(_)));
    assert!(matches!(
        legacy_failure(LegacyAction::RegisterRtc, cause()),
        VmmError::RegisterMMIODevice(MmioError::Device(_))
    ));
    assert!(matches!(
        start_failure(Action::Restore(RestoreAction::RestoreVm), cause()),
        StartMicrovmError::Unknown
    ));
    assert!(matches!(
        snapshot_failure(Action::LoadKernel, cause()),
        BuildMicrovmFromSnapshotError::CreateMicrovmAndVcpus(StartMicrovmError::ConfigureSystem(
            _
        ))
    ));
}

#[test]
fn some_actions_cannot_fail_a_build() {
    for action in [
        Action::Vmm(VmmAction::CreateDeviceManagers),
        Action::Vmm(VmmAction::SetStdoutNonblocking),
        Action::Vmm(VmmAction::Serial(SerialAction::CreateDevice)),
        Action::Vmm(VmmAction::CreatePortIoManager),
        Action::Vmm(VmmAction::RegisterPortIoDevices),
        Action::AttachDebugInfo,
        Action::Attach(DeviceHandle::Vsock, AttachAction::Subscribe),
        Action::Attach(DeviceHandle::Vsock, AttachAction::ConfigBarAddress),
        Action::CreatePassthroughDevice,
        Action::Vfio(0, VfioAction::NextDeviceId),
        Action::Vfio(0, VfioAction::Pci(PciAction::AddDevice { device: 1 })),
        Action::Legacy(LegacyAction::SetStdoutNonblocking),
        Action::Restore(RestoreAction::RestoreBootSource),
        Action::SubscribeVmm,
    ] {
        assert!(!may_fail(action), "{:?}", action);
    }
    assert!(may_fail(Action::LoadKernel));
    assert!(may_fail(Action::Vfio(0, VfioAction::OpenDevice)));
    assert!(may_fail(Action::ResumeVm));
}
