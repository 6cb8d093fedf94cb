//! The whole of attaching a device, from the first action that the host is asked for to the last.
use crate::cmdline::model;
use crate::laws::{asked, is_run, run};
use crate::model::{fits, follow_up, is_build_of, settle, step, BuildModel};
use crate::pci::{bars_plan, spec_bdf_device, spec_device_bdf, PCI_SEGMENT_ID};
use crate::progress::lemma_bars_below;
use crate::resources::{BuildInput, DeviceHandle, MemoryRegion};
use crate::task::{
    Action, AttachAction, Outcome, PciAction, PciBarConfiguration, Task, VfioAction,
};
use crate::vfio::{dma_plan, vfio_device_plan, vfio_task};
use crate::virtio::{
    attach_task, bdf_plan, has_notify_addresses, mmio_plan, notify_address, pci_plan, spec_msix_num,
    spec_use_64bit_bar,
};
use linux_loader::cmdline::Cmdline;
use vstd::prelude::*;

verus! {

/// The actions as tasks of the host.
pub open spec fn host_tasks(actions: Seq<Action>) -> Seq<Task> {
    actions.map_values(|action: Action| Task::Host(action))
}

/// As many reports that something is done.
pub open spec fn all_done(count: nat) -> Seq<Outcome> {
    Seq::new(count, |i: int| Outcome::Done)
}

/// All of the actions can be reported as done.
pub open spec fn are_silent(input: BuildInput, actions: Seq<Action>) -> bool {
    forall|i: int| 0 <= i < actions.len() ==> fits(input, #[trigger] actions[i], Outcome::Done)
}

/// The build with other tasks before it.
pub open spec fn with_todo(build: BuildModel, todo: Seq<Task>) -> BuildModel {
    BuildModel { todo, ..build }
}

/// A build asks for more once the host has reported the first outcomes.
proof fn lemma_run_in_turn(
    input: BuildInput,
    build: BuildModel,
    first: Seq<Outcome>,
    rest: Seq<Outcome>,
)
    requires
        is_run(input, build, first),
        is_run(input, run(input, build, first), rest),
    ensures
        is_run(input, build, first + rest),
        run(input, build, first + rest) == run(input, run(input, build, first), rest),
        asked(input, build, first + rest) == asked(input, build, first) + asked(
            input,
            run(input, build, first),
            rest,
        ),
    decreases first.len(),
{
    let all = first + rest;
    if first.len() == 0 {
        assert(all =~= rest);
        assert(asked(input, build, first) + asked(input, build, rest) =~= asked(
            input,
            build,
            rest,
        ));
    } else {
        let next = step(input, build, first[0]);
        lemma_run_in_turn(input, next, first.drop_first(), rest);
        assert(all.drop_first() =~= first.drop_first() + rest);
        assert(asked(input, build, all) =~= asked(input, build, first) + asked(
            input,
            run(input, build, first),
            rest,
        ));
    }
}

/// One action whose outcome leads to the tasks.
proof fn lemma_one(
    input: BuildInput,
    build: BuildModel,
    action: Action,
    outcome: Outcome,
    rest: Seq<Task>,
)
    requires
        build.verdict is Running,
        build.todo == seq![Task::Host(action)] + rest,
        fits(input, action, outcome),
        !(outcome is Failed),
        !(outcome is GuestMemory),
        !(outcome is Vcpus),
        !(outcome is Cmdline),
    ensures
        is_run(input, build, seq![outcome]),
        asked(input, build, seq![outcome]) == seq![action],
        run(input, build, seq![outcome]) == settle(
            input,
            with_todo(build, follow_up(input, build, action, outcome) + rest),
        ),
{
    let outcomes = seq![outcome];
    let next = step(input, build, outcome);
    assert(build.todo.drop_first() =~= rest);
    assert(outcomes.drop_first() =~= seq![]);
    assert(is_run(input, next, outcomes.drop_first()));
    assert(run(input, next, outcomes.drop_first()) == next);
    assert(asked(input, next, outcomes.drop_first()) =~= seq![]);
    assert(asked(input, build, outcomes) =~= seq![action]);
}

/// Actions that tell nothing are asked for one after the other.
proof fn lemma_silent(
    input: BuildInput,
    build: BuildModel,
    actions: Seq<Action>,
    rest: Seq<Task>,
)
    requires
        build.verdict is Running,
        build.todo == host_tasks(actions) + rest,
        are_silent(input, actions),
        settle(input, build) == build,
    ensures
        is_run(input, build, all_done(actions.len())),
        asked(input, build, all_done(actions.len())) == actions,
        run(input, build, all_done(actions.len())) == settle(input, with_todo(build, rest)),
    decreases actions.len(),
{
    let outcomes = all_done(actions.len());
    if actions.len() == 0 {
        assert(build.todo =~= rest);
        assert(with_todo(build, rest) == build);
        assert(asked(input, build, outcomes) =~= actions);
    } else {
        let later = actions.drop_first();
        let next = with_todo(build, host_tasks(later) + rest);
        assert(build.todo =~= seq![Task::Host(actions[0])] + (host_tasks(later) + rest));
        lemma_one(input, build, actions[0], Outcome::Done, host_tasks(later) + rest);
        assert(follow_up(input, build, actions[0], Outcome::Done) + (host_tasks(later) + rest)
            =~= host_tasks(later) + rest);
        if later.len() > 0 {
            assert(next.todo[0] == Task::Host(later[0]));
            assert(settle(input, next) == next);
            lemma_silent(input, next, later, rest);
            lemma_run_in_turn(input, build, seq![Outcome::Done], all_done(later.len()));
        } else {
            assert(host_tasks(later) + rest =~= rest);
            let end = settle(input, with_todo(build, rest));
            assert(all_done(0) =~= seq![]);
            assert(is_run(input, end, all_done(0)));
            lemma_run_in_turn(input, build, seq![Outcome::Done], all_done(0));
        }
        assert(outcomes =~= seq![Outcome::Done] + all_done(later.len()));
        assert(actions =~= seq![actions[0]] + later);
    }
}

/// The build works on the tasks before everything else.
pub open spec fn works_on(
    input: BuildInput,
    build: BuildModel,
    tasks: Seq<Task>,
    rest: Seq<Task>,
) -> bool {
    &&& is_build_of(input, build)
    &&& build.verdict is Running
    &&& build.todo == tasks + rest
}

/// A virtio device is attached over MMIO by subscribing it and registering it. The build goes on with
/// the rest, and with the command line that the registration gave.
pub proof fn law_mmio_attachment(
    input: BuildInput,
    build: BuildModel,
    rest: Seq<Task>,
    device: DeviceHandle,
    is_vhost_user: bool,
    cmdline: Cmdline,
)
    requires
        works_on(input, build, mmio_plan(device, is_vhost_user), rest),
    ensures
        ({
            let outcomes = seq![Outcome::Done, Outcome::Cmdline(cmdline)];
            &&& is_run(input, build, outcomes)
            &&& asked(input, build, outcomes) == seq![
                Action::Attach(device, AttachAction::Subscribe),
                Action::Attach(device, AttachAction::RegisterMmio { is_vhost_user }),
            ]
            &&& run(input, build, outcomes) == settle(
                input,
                BuildModel { todo: rest, cmdline: Some(model(cmdline)), ..build },
            )
        }),
{
    let outcomes = seq![Outcome::Done, Outcome::Cmdline(cmdline)];
    let subscribe = Action::Attach(device, AttachAction::Subscribe);
    let register = Action::Attach(device, AttachAction::RegisterMmio { is_vhost_user });
    let later = seq![Task::Host(register)] + rest;
    let next = with_todo(build, later);
    assert(build.todo =~= seq![Task::Host(subscribe)] + later);
    lemma_one(input, build, subscribe, Outcome::Done, later);
    assert(follow_up(input, build, subscribe, Outcome::Done) + later =~= later);
    assert(settle(input, next) == next);
    let registered = seq![Outcome::Cmdline(cmdline)];
    let end = step(input, next, Outcome::Cmdline(cmdline));
    assert(next.todo.drop_first() =~= rest);
    assert(follow_up(input, next, register, Outcome::Cmdline(cmdline)) + rest =~= rest);
    assert(registered.drop_first() =~= seq![]);
    assert(is_run(input, end, registered.drop_first()));
    assert(run(input, end, registered.drop_first()) == end);
    assert(asked(input, end, registered.drop_first()) =~= seq![]);
    assert(asked(input, next, registered) =~= seq![register]);
    lemma_run_in_turn(input, build, seq![Outcome::Done], registered);
    assert(outcomes =~= seq![Outcome::Done] + registered);
}

/// The steps of placing a virtio device on the PCI bus.
pub open spec fn placing_actions(
    input: BuildInput,
    device: DeviceHandle,
    slot: u32,
    bars: Seq<PciBarConfiguration>,
) -> Seq<Action> {
    bars_plan(input.resources.arch, slot, bars).map_values(
        |action: PciAction| Action::Attach(device, AttachAction::Pci(action)),
    )
}

/// The steps of tying the notification addresses of a virtio device to its queues.
pub open spec fn notify_actions(
    device: DeviceHandle,
    queue_events: usize,
    bar_addr: u64,
) -> Seq<Action> {
    Seq::new(
        queue_events as nat,
        |queue: int|
            Action::Attach(
                device,
                AttachAction::RegisterIoevent {
                    queue: queue as usize,
                    addr: notify_address(bar_addr, queue) as u64,
                },
            ),
    )
}

/// What the host reports while a virtio device is attached over PCI.
pub open spec fn pci_outcomes(
    input: BuildInput,
    device: DeviceHandle,
    bdf: u32,
    bars: Vec<PciBarConfiguration>,
    bar_addr: u64,
) -> Seq<Outcome> {
    seq![Outcome::Done, Outcome::Bdf(bdf), Outcome::Done, Outcome::Bars(bars)] + all_done(
        placing_actions(input, device, spec_bdf_device(bdf), bars@).len(),
    ) + seq![Outcome::BarAddress(bar_addr)] + all_done(
        input.resources.spec_device(device).queue_events as nat,
    )
}

/// What the host is asked for while a virtio device is attached over PCI.
pub open spec fn pci_actions(
    input: BuildInput,
    device: DeviceHandle,
    bdf: u32,
    bars: Vec<PciBarConfiguration>,
    bar_addr: u64,
) -> Seq<Action> {
    let info = input.resources.spec_device(device);
    let slot = spec_bdf_device(bdf);
    seq![
        Action::Attach(device, AttachAction::Subscribe),
        Action::Attach(device, AttachAction::NextDeviceBdf),
        Action::Attach(
            device,
            AttachAction::CreateVirtioPci {
                msix_num: spec_msix_num(info.queues),
                bdf,
                use_64bit_bar: spec_use_64bit_bar(PCI_SEGMENT_ID, info.device_type),
            },
        ),
        Action::Attach(device, AttachAction::Pci(PciAction::AllocateBars { device: slot })),
    ] + placing_actions(input, device, slot, bars@) + seq![
        Action::Attach(device, AttachAction::ConfigBarAddress),
    ] + notify_actions(device, info.queue_events, bar_addr)
}

proof fn lemma_placing_is_silent(
    input: BuildInput,
    device: DeviceHandle,
    slot: u32,
    bars: Seq<PciBarConfiguration>,
)
    ensures
        are_silent(input, placing_actions(input, device, slot, bars)),
{
    lemma_bars_below(input.resources.arch, slot, bars);
}

/// The first half: up to the base address registers.
proof fn lemma_pci_address(
    input: BuildInput,
    build: BuildModel,
    rest: Seq<Task>,
    device: DeviceHandle,
    bdf: u32,
    bars: Vec<PciBarConfiguration>,
)
    requires
        works_on(input, build, pci_plan(device), rest),
        input.resources.spec_device(device).queues < usize::MAX,
    ensures
        ({
            let outcomes = seq![
                Outcome::Done,
                Outcome::Bdf(bdf),
                Outcome::Done,
                Outcome::Bars(bars),
            ];
            let info = input.resources.spec_device(device);
            let slot = spec_bdf_device(bdf);
            &&& is_run(input, build, outcomes)
            &&& asked(input, build, outcomes) == seq![
                Action::Attach(device, AttachAction::Subscribe),
                Action::Attach(device, AttachAction::NextDeviceBdf),
                Action::Attach(
                    device,
                    AttachAction::CreateVirtioPci {
                        msix_num: spec_msix_num(info.queues),
                        bdf,
                        use_64bit_bar: spec_use_64bit_bar(PCI_SEGMENT_ID, info.device_type),
                    },
                ),
                Action::Attach(device, AttachAction::Pci(PciAction::AllocateBars { device: slot })),
            ]
            &&& run(input, build, outcomes) == with_todo(
                build,
                host_tasks(placing_actions(input, device, slot, bars@)) + (seq![
                    attach_task(device, AttachAction::ConfigBarAddress),
                ] + rest),
            )
        }),
{
    let info = input.resources.spec_device(device);
    let slot = spec_bdf_device(bdf);
    let subscribe = Action::Attach(device, AttachAction::Subscribe);
    let address = Action::Attach(device, AttachAction::NextDeviceBdf);
    let create = Action::Attach(
        device,
        AttachAction::CreateVirtioPci {
            msix_num: spec_msix_num(info.queues),
            bdf,
            use_64bit_bar: spec_use_64bit_bar(PCI_SEGMENT_ID, info.device_type),
        },
    );
    let allocate = Action::Attach(device, AttachAction::Pci(PciAction::AllocateBars { device: slot }));
    let config = seq![attach_task(device, AttachAction::ConfigBarAddress)] + rest;
    let a = seq![Task::Host(address)] + rest;
    let b = seq![Task::Host(allocate)] + config;
    let placed = host_tasks(placing_actions(input, device, slot, bars@)) + config;
    let one = with_todo(build, a);
    let two = with_todo(build, seq![Task::Host(create)] + b);
    let three = with_todo(build, b);
    let four = with_todo(build, placed);
    assert(build.todo =~= seq![Task::Host(subscribe)] + a);
    lemma_one(input, build, subscribe, Outcome::Done, a);
    assert(follow_up(input, build, subscribe, Outcome::Done) + a =~= a);
    lemma_one(input, one, address, Outcome::Bdf(bdf), rest);
    assert(bdf_plan(device, info, bdf) + rest =~= seq![Task::Host(create)] + b);
    lemma_one(input, two, create, Outcome::Done, b);
    assert(follow_up(input, two, create, Outcome::Done) + b =~= b);
    lemma_one(input, three, allocate, Outcome::Bars(bars), config);
    assert(follow_up(input, three, allocate, Outcome::Bars(bars)) =~= host_tasks(
        placing_actions(input, device, slot, bars@),
    ));
    assert(placed[0] is Host);
    let o1 = seq![Outcome::Done];
    let o2 = seq![Outcome::Bdf(bdf)];
    let o3 = seq![Outcome::Done];
    let o4 = seq![Outcome::Bars(bars)];
    lemma_run_in_turn(input, build, o1, o2);
    lemma_run_in_turn(input, build, o1 + o2, o3);
    lemma_run_in_turn(input, build, o1 + o2 + o3, o4);
    assert(o1 + o2 + o3 + o4 =~= seq![
        Outcome::Done,
        Outcome::Bdf(bdf),
        Outcome::Done,
        Outcome::Bars(bars),
    ]);
    assert(seq![subscribe] + seq![address] + seq![create] + seq![allocate] =~= seq![
        subscribe,
        address,
        create,
        allocate,
    ]);
}

/// A virtio device is attached over PCI by subscribing it, giving it an address, wrapping it in the
/// transport, placing it on the bus as its base address registers say, and tying the notification
/// address of each queue to the event of the queue. The build goes on with the rest.
pub proof fn law_pci_attachment(
    input: BuildInput,
    build: BuildModel,
    rest: Seq<Task>,
    device: DeviceHandle,
    bdf: u32,
    bars: Vec<PciBarConfiguration>,
    bar_addr: u64,
)
    requires
        works_on(input, build, pci_plan(device), rest),
        input.resources.spec_device(device).queues < usize::MAX,
        has_notify_addresses(bar_addr, input.resources.spec_device(device).queue_events),
    ensures
        is_run(input, build, pci_outcomes(input, device, bdf, bars, bar_addr)),
        asked(input, build, pci_outcomes(input, device, bdf, bars, bar_addr)) == pci_actions(
            input,
            device,
            bdf,
            bars,
            bar_addr,
        ),
        run(input, build, pci_outcomes(input, device, bdf, bars, bar_addr)) == settle(
            input,
            with_todo(build, rest),
        ),
{
    let info = input.resources.spec_device(device);
    let slot = spec_bdf_device(bdf);
    let placing = placing_actions(input, device, slot, bars@);
    let notify = notify_actions(device, info.queue_events, bar_addr);
    let config = Action::Attach(device, AttachAction::ConfigBarAddress);
    let after_placing = seq![Task::Host(config)] + rest;
    let o1 = seq![Outcome::Done, Outcome::Bdf(bdf), Outcome::Done, Outcome::Bars(bars)];
    let o2 = all_done(placing.len());
    let o3 = seq![Outcome::BarAddress(bar_addr)];
    let o4 = all_done(info.queue_events as nat);
    let placed = with_todo(build, host_tasks(placing) + after_placing);
    let configured = with_todo(build, after_placing);
    let notified = with_todo(build, host_tasks(notify) + rest);
    lemma_pci_address(input, build, rest, device, bdf, bars);
    lemma_placing_is_silent(input, device, slot, bars@);
    assert(placed.todo[0] is Host);
    lemma_silent(input, placed, placing, after_placing);
    assert(settle(input, configured) == configured);
    lemma_one(input, configured, config, Outcome::BarAddress(bar_addr), rest);
    assert(follow_up(input, configured, config, Outcome::BarAddress(bar_addr)) =~= host_tasks(
        notify,
    ));
    lemma_run_in_turn(input, build, o1, o2);
    lemma_run_in_turn(input, build, o1 + o2, o3);
    if info.queue_events > 0 {
        assert(notified.todo[0] is Host);
        lemma_silent(input, notified, notify, rest);
    } else {
        assert(host_tasks(notify) + rest =~= rest);
        assert(o4 =~= seq![]);
        assert(notify =~= seq![]);
        assert(is_run(input, settle(input, notified), o4));
        assert(asked(input, settle(input, notified), o4) =~= notify);
    }
    lemma_run_in_turn(input, build, o1 + o2 + o3, o4);
}

/// The steps of placing a device that is passed through on the PCI bus.
pub open spec fn vfio_placing_actions(
    input: BuildInput,
    i: usize,
    slot: u32,
    bars: Seq<PciBarConfiguration>,
) -> Seq<Action> {
    bars_plan(input.resources.arch, slot, bars).map_values(
        |action: PciAction| Action::Vfio(i, VfioAction::Pci(action)),
    )
}

/// The steps of letting a device that is passed through reach guest memory.
pub open spec fn dma_actions(i: usize, regions: Seq<MemoryRegion>) -> Seq<Action> {
    regions.map_values(
        |region: MemoryRegion|
            Action::Vfio(
                i,
                VfioAction::DmaMap {
                    iova: region.start,
                    size: region.len,
                    user_addr: region.host_addr,
                },
            ),
    )
}

/// What the host reports while a device is passed through.
pub open spec fn vfio_outcomes(
    input: BuildInput,
    build: BuildModel,
    i: usize,
    device_id: u32,
    bars: Vec<PciBarConfiguration>,
) -> Seq<Outcome> {
    let slot = spec_bdf_device(spec_device_bdf(device_id));
    seq![Outcome::DeviceId(device_id)] + all_done(3) + seq![Outcome::Bars(bars)] + all_done(
        (vfio_placing_actions(input, i, slot, bars@) + dma_actions(i, build.regions)).len(),
    )
}

/// What the host is asked for while a device is passed through.
pub open spec fn vfio_actions(
    input: BuildInput,
    build: BuildModel,
    i: usize,
    device_id: u32,
    bars: Vec<PciBarConfiguration>,
) -> Seq<Action> {
    let bdf = spec_device_bdf(device_id);
    let slot = spec_bdf_device(bdf);
    seq![Action::Vfio(i, VfioAction::NextDeviceId)] + seq![
        Action::Vfio(i, VfioAction::CreateContainer),
        Action::Vfio(i, VfioAction::OpenDevice),
        Action::Vfio(i, VfioAction::CreateDevice { id: device_id, bdf }),
    ] + seq![Action::Vfio(i, VfioAction::Pci(PciAction::AllocateBars { device: slot }))] + (
    vfio_placing_actions(input, i, slot, bars@) + dma_actions(i, build.regions))
}

proof fn lemma_vfio_placing_is_silent(
    input: BuildInput,
    i: usize,
    slot: u32,
    bars: Seq<PciBarConfiguration>,
    regions: Seq<MemoryRegion>,
)
    ensures
        are_silent(input, vfio_placing_actions(input, i, slot, bars) + dma_actions(i, regions)),
{
    lemma_bars_below(input.resources.arch, slot, bars);
}

/// A device of the host is passed through by giving it a number, opening it in a container of its
/// own, wrapping it for the bus at the address that the number stands for, placing it on the bus as
/// its base address registers say, and letting it reach guest memory region by region. The build
/// goes on with the rest.
pub proof fn law_passthrough(
    input: BuildInput,
    build: BuildModel,
    rest: Seq<Task>,
    i: usize,
    device_id: u32,
    bars: Vec<PciBarConfiguration>,
)
    requires
        works_on(input, build, seq![vfio_task(i, VfioAction::NextDeviceId)], rest),
        input.spec_pci_enabled(),
    ensures
        is_run(input, build, vfio_outcomes(input, build, i, device_id, bars)),
        asked(input, build, vfio_outcomes(input, build, i, device_id, bars)) == vfio_actions(
            input,
            build,
            i,
            device_id,
            bars,
        ),
        run(input, build, vfio_outcomes(input, build, i, device_id, bars)) == settle(
            input,
            with_todo(build, rest),
        ),
{
    let bdf = spec_device_bdf(device_id);
    let slot = spec_bdf_device(bdf);
    let number = Action::Vfio(i, VfioAction::NextDeviceId);
    let opening = seq![
        Action::Vfio(i, VfioAction::CreateContainer),
        Action::Vfio(i, VfioAction::OpenDevice),
        Action::Vfio(i, VfioAction::CreateDevice { id: device_id, bdf }),
    ];
    let allocate = Action::Vfio(i, VfioAction::Pci(PciAction::AllocateBars { device: slot }));
    let placing = vfio_placing_actions(input, i, slot, bars@);
    let dma = dma_actions(i, build.regions);
    let after_opening = seq![Task::Host(allocate)] + (host_tasks(dma) + rest);
    let numbered = with_todo(build, host_tasks(opening) + after_opening);
    let opened = with_todo(build, after_opening);
    let placed = with_todo(build, host_tasks(placing + dma) + rest);
    let o1 = seq![Outcome::DeviceId(device_id)];
    let o3 = seq![Outcome::Bars(bars)];
    let o4 = all_done((placing + dma).len());
    lemma_one(input, build, number, Outcome::DeviceId(device_id), rest);
    assert(vfio_device_plan(i, device_id, build.regions) + rest =~= numbered.todo) by {
        assert(dma_plan(i, build.regions) =~= host_tasks(dma));
    }
    assert(numbered.todo[0] is Host);
    lemma_silent(input, numbered, opening, after_opening);
    assert(settle(input, opened) == opened);
    lemma_one(input, opened, allocate, Outcome::Bars(bars), host_tasks(dma) + rest);
    assert(follow_up(input, opened, allocate, Outcome::Bars(bars)) + (host_tasks(dma) + rest)
        =~= placed.todo);
    assert(placed.todo[0] is Host) by {
        assert(placing.len() > 0);
    }
    lemma_vfio_placing_is_silent(input, i, slot, bars@, build.regions);
    lemma_silent(input, placed, placing + dma, rest);
    lemma_run_in_turn(input, build, o1, all_done(3));
    lemma_run_in_turn(input, build, o1 + all_done(3), o3);
    lemma_run_in_turn(input, build, o1 + all_done(3) + o3, o4);
}

} // verus!
