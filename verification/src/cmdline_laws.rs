//! What the kernel command line comes to over a whole build.
use crate::builder::boot_and_run_plan;
use crate::cmdline::{model, CmdlineModel};
use crate::laws::{
    asked, from_phase, in_order, is_run, law_asked_is_allowed, lemma_run_after, lemma_run_before,
    lemma_run_in_order, lemma_settle_built, lemma_step_in_order, phase, planned, run,
};
use crate::model::{
    are_tasks_of, follow_up, is_build_of, is_task_of, law_step_keeps_build, learn, lemma_follow_up,
    settle, step, BuildModel,
};
use crate::recipe::{
    boot_plan, boot_timer_plan, devices_plan, guest_plan, launch_plan, machine_plan,
    passthrough_plan, platform_plan, tasks_if,
};
use crate::recipe_laws::{
    boot_and_run_build, boot_build, can_boot, law_boot_is_in_order, lemma_boot_build,
};
use crate::resources::{is_one_of, Arch, BlockDevice, BuildInput, DeviceHandle, VmResources};
use crate::root::{law_root_arguments, root_arguments, root_text};
use crate::task::{Action, Capabilities, Outcome, Task};
use crate::virtio::{block_plan, blocks_plan, nets_plan, virtio_plan};
use crate::vmm::create_vmm_plan;
use vstd::prelude::*;

verus! {

/// The arguments with a text behind them, and a space between the two.
pub open spec fn appended(args: Seq<char>, text: Seq<char>) -> Seq<char> {
    if args.len() == 0 {
        text
    } else {
        args + seq![' '] + text
    }
}

/// The arguments with the texts behind them, one after the other.
pub open spec fn with_texts(args: Seq<char>, texts: Seq<Seq<char>>) -> Seq<char>
    decreases texts.len(),
{
    if texts.len() == 0 {
        args
    } else {
        with_texts(appended(args, texts[0]), texts.drop_first())
    }
}

/// What the root devices among the block devices put on the command line, device by device.
pub open spec fn root_texts(blocks: Seq<BlockDevice>) -> Seq<Seq<char>> {
    blocks.filter(|block: BlockDevice| block.root_device).map_values(
        |block: BlockDevice| root_text(block),
    )
}

/// What the tasks will put on the command line without the host.
pub open spec fn pending_texts(input: BuildInput, tasks: Seq<Task>) -> Seq<Seq<char>>
    decreases tasks.len(),
{
    if tasks.len() == 0 {
        seq![]
    } else {
        let rest = pending_texts(input, tasks.drop_first());
        match tasks[0] {
            Task::RootArguments(i) => seq![root_text(input.resources.block@[i as int])] + rest,
            _ => rest,
        }
    }
}

/// No task puts anything on the command line without the host.
spec fn puts_nothing(tasks: Seq<Task>) -> bool {
    forall|i: int| 0 <= i < tasks.len() ==> !(#[trigger] tasks[i] is RootArguments)
}

proof fn lemma_pending_in_turn(input: BuildInput, first: Seq<Task>, rest: Seq<Task>)
    ensures
        pending_texts(input, first + rest) == pending_texts(input, first) + pending_texts(
            input,
            rest,
        ),
    decreases first.len(),
{
    if first.len() == 0 {
        assert(first + rest =~= rest);
        assert(pending_texts(input, first) + pending_texts(input, rest) =~= pending_texts(
            input,
            rest,
        ));
    } else {
        lemma_pending_in_turn(input, first.drop_first(), rest);
        assert((first + rest).drop_first() =~= first.drop_first() + rest);
        assert(pending_texts(input, first + rest) =~= pending_texts(input, first) + pending_texts(
            input,
            rest,
        ));
    }
}

proof fn lemma_puts_nothing(input: BuildInput, tasks: Seq<Task>)
    requires
        puts_nothing(tasks),
    ensures
        pending_texts(input, tasks) == Seq::<Seq<char>>::empty(),
    decreases tasks.len(),
{
    if tasks.len() > 0 {
        assert(puts_nothing(tasks.drop_first()));
        lemma_puts_nothing(input, tasks.drop_first());
    }
}

/// Tasks that put nothing on the command line change nothing of what will be put there.
proof fn lemma_nothing_before(input: BuildInput, first: Seq<Task>, rest: Seq<Task>)
    requires
        puts_nothing(first),
    ensures
        pending_texts(input, first + rest) == pending_texts(input, rest),
{
    lemma_pending_in_turn(input, first, rest);
    lemma_puts_nothing(input, first);
    assert(pending_texts(input, first) + pending_texts(input, rest) =~= pending_texts(input, rest));
}

proof fn lemma_follow_up_puts_nothing(
    input: BuildInput,
    build: BuildModel,
    action: Action,
    outcome: Outcome,
)
    ensures
        puts_nothing(follow_up(input, build, action, outcome)),
{
}

/// The task at the front puts nothing on the command line, and the plan that takes its place does
/// not either.
proof fn lemma_pending_replaced(input: BuildInput, tasks: Seq<Task>, plan: Seq<Task>)
    requires
        tasks.len() > 0,
        !(tasks[0] is RootArguments),
        puts_nothing(plan),
    ensures
        pending_texts(input, plan + tasks.drop_first()) == pending_texts(input, tasks),
{
    lemma_nothing_before(input, plan, tasks.drop_first());
}

proof fn lemma_planned_puts_nothing(input: BuildInput, build: BuildModel, task: Task)
    ensures
        puts_nothing(planned(input, build, task)),
{
}

/// The command line after what it was before: all that is left of it is to append the texts that are
/// still pending.
pub open spec fn comes_to(
    input: BuildInput,
    before: CmdlineModel,
    todo: Seq<Task>,
    after: CmdlineModel,
    left: Seq<Task>,
) -> bool {
    &&& after.init_args == before.init_args
    &&& after.capacity == before.capacity
    &&& with_texts(after.boot_args, pending_texts(input, left)) == with_texts(
        before.boot_args,
        pending_texts(input, todo),
    )
}

proof fn lemma_one_root(input: BuildInput, cmdline: CmdlineModel, tasks: Seq<Task>, i: usize)
    requires
        tasks.len() > 0,
        tasks[0] == Task::RootArguments(i),
        root_arguments(cmdline, input.resources.block@[i as int]).1 is None,
    ensures
        comes_to(
            input,
            cmdline,
            tasks,
            root_arguments(cmdline, input.resources.block@[i as int]).0,
            tasks.drop_first(),
        ),
{
    let block = input.resources.block@[i as int];
    let texts = pending_texts(input, tasks);
    law_root_arguments(cmdline, block);
    assert(texts[0] == root_text(block));
    assert(texts.drop_first() =~= pending_texts(input, tasks.drop_first()));
    assert(root_arguments(cmdline, block).0.boot_args =~= appended(
        cmdline.boot_args,
        root_text(block),
    ));
}

proof fn lemma_settle_texts(input: BuildInput, build: BuildModel)
    requires
        build.verdict is Running,
        are_tasks_of(input, build.todo),
        input.source is Boot,
        build.cmdline is Some,
    ensures
        settle(input, build).cmdline is Some,
        !(settle(input, build).verdict is BadCmdline) ==> comes_to(
            input,
            build.cmdline->0,
            build.todo,
            settle(input, build).cmdline->0,
            settle(input, build).todo,
        ),
    decreases build.todo.len(),
{
    if build.todo.len() > 0 {
        let rest = build.todo.drop_first();
        let settled = settle(input, build);
        assert(is_task_of(input, build.todo[0]));
        assert(are_tasks_of(input, rest));
        match build.todo[0] {
            Task::RootArguments(i) => {
                let (cmdline, err) = root_arguments(
                    build.cmdline->0,
                    input.resources.block@[i as int],
                );
                if err is None {
                    lemma_one_root(input, build.cmdline->0, build.todo, i);
                    lemma_settle_texts(
                        input,
                        BuildModel { todo: rest, cmdline: Some(cmdline), ..build },
                    );
                }
            },
            Task::PlanPci | Task::PlanLegacyDevices => {
                let plan = planned(input, build, build.todo[0]);
                lemma_planned_puts_nothing(input, build, build.todo[0]);
                lemma_pending_replaced(input, build.todo, plan);
            },
            Task::RequireFilter(_) => {
                lemma_settle_texts(input, BuildModel { todo: rest, ..build });
            },
            _ => {},
        }
    }
}

/// Where the host hands no command line back, a build that succeeds has appended to its command line
/// what its tasks were to put there, in order, and nothing else.
pub proof fn law_cmdline_without_host(
    input: BuildInput,
    build: BuildModel,
    outcomes: Seq<Outcome>,
)
    requires
        is_build_of(input, build),
        input.source is Boot,
        build.verdict is Running,
        is_run(input, build, outcomes),
        run(input, build, outcomes).verdict is Built,
        forall|i: int| 0 <= i < outcomes.len() ==> !(#[trigger] outcomes[i] is Cmdline),
    ensures
        ({
            let before = build.cmdline->0;
            let after = run(input, build, outcomes).cmdline->0;
            &&& run(input, build, outcomes).cmdline is Some
            &&& after.boot_args == with_texts(before.boot_args, pending_texts(input, build.todo))
            &&& after.init_args == before.init_args
            &&& after.capacity == before.capacity
        }),
    decreases outcomes.len(),
{
    let outcome = outcomes[0];
    let next = step(input, build, outcome);
    let rest = outcomes.drop_first();
    let action = build.todo[0]->Host_0;
    let later = build.todo.drop_first();
    law_step_keeps_build(input, build, outcome);
    assert(is_run(input, next, rest));
    if rest.len() == 0 {
        assert(run(input, next, rest) == next);
    }
    assert(!(outcome is Failed)) by {
        if outcome is Failed {
            assert(rest.len() == 0);
        }
    }
    let followed = follow_up(input, build, action, outcome);
    let open = BuildModel { todo: followed + later, ..learn(build, outcome) };
    assert(is_task_of(input, build.todo[0]));
    lemma_follow_up(input, build, action, outcome);
    lemma_follow_up_puts_nothing(input, build, action, outcome);
    lemma_pending_replaced(input, build.todo, followed);
    lemma_settle_texts(input, open);
    lemma_settle_built(input, open);
    if rest.len() > 0 {
        assert forall|i: int| 0 <= i < rest.len() implies !(#[trigger] rest[i] is Cmdline) by {
            assert(rest[i] == outcomes[i + 1]);
        }
        law_cmdline_without_host(input, next, rest);
    }
}

/// The texts stand in `s` one behind the other, with anything between them.
pub open spec fn holds_in_turn(s: Seq<char>, texts: Seq<Seq<char>>) -> bool
    decreases texts.len(),
{
    texts.len() == 0 || exists|p: int|
        {
            &&& 0 <= p <= s.len() - texts.last().len()
            &&& s.subrange(p, p + texts.last().len()) == texts.last()
            &&& holds_in_turn(#[trigger] s.take(p), texts.drop_last())
        }
}

/// The later arguments are the earlier ones with something behind them.
pub open spec fn extends(before: Seq<char>, after: Seq<char>) -> bool {
    before.len() <= after.len() && after.take(before.len() as int) == before
}

/// The later arguments are the earlier ones with something behind them that holds the texts in turn.
pub open spec fn gains(before: Seq<char>, after: Seq<char>, texts: Seq<Seq<char>>) -> bool {
    extends(before, after) && holds_in_turn(after.skip(before.len() as int), texts)
}

proof fn lemma_holds_in_turn(a: Seq<char>, first: Seq<Seq<char>>, b: Seq<char>, rest: Seq<Seq<char>>)
    requires
        holds_in_turn(a, first),
        holds_in_turn(b, rest),
    ensures
        holds_in_turn(a + b, first + rest),
    decreases rest.len(),
{
    let s = a + b;
    let texts = first + rest;
    if rest.len() == 0 {
        assert(texts =~= first);
        if first.len() > 0 {
            let text = first.last();
            let p = choose|p: int|
                {
                    &&& 0 <= p <= a.len() - text.len()
                    &&& a.subrange(p, p + text.len()) == text
                    &&& holds_in_turn(#[trigger] a.take(p), first.drop_last())
                };
            assert(s.take(p) =~= a.take(p));
            assert(s.subrange(p, p + text.len()) =~= text);
        }
    } else {
        let text = rest.last();
        let p = choose|p: int|
            {
                &&& 0 <= p <= b.len() - text.len()
                &&& b.subrange(p, p + text.len()) == text
                &&& holds_in_turn(#[trigger] b.take(p), rest.drop_last())
            };
        let at = a.len() + p;
        lemma_holds_in_turn(a, first, b.take(p), rest.drop_last());
        assert(s.take(at) =~= a + b.take(p));
        assert(s.subrange(at, at + text.len()) =~= text);
        assert(texts.last() == text);
        assert(texts.drop_last() =~= first + rest.drop_last());
    }
}

proof fn lemma_gains_in_turn(
    a: Seq<char>,
    first: Seq<Seq<char>>,
    b: Seq<char>,
    rest: Seq<Seq<char>>,
    c: Seq<char>,
)
    requires
        gains(a, b, first),
        gains(b, c, rest),
    ensures
        gains(a, c, first + rest),
{
    lemma_holds_in_turn(b.skip(a.len() as int), first, c.skip(b.len() as int), rest);
    assert(c.take(a.len() as int) =~= b.take(a.len() as int));
    assert(c.skip(a.len() as int) =~= b.skip(a.len() as int) + c.skip(b.len() as int)) by {
        assert forall|i: int| a.len() <= i < b.len() implies #[trigger] c[i] == b[i] by {
            assert(c.take(b.len() as int)[i] == b[i]);
        }
    }
}

proof fn lemma_gains_nothing(args: Seq<char>)
    ensures
        gains(args, args, seq![]),
{
    assert(args.take(args.len() as int) =~= args);
}

proof fn lemma_gains_text(args: Seq<char>, text: Seq<char>)
    ensures
        gains(args, appended(args, text), seq![text]),
{
    let after = appended(args, text);
    let tail = after.skip(args.len() as int);
    let p = tail.len() - text.len();
    assert(after.take(args.len() as int) =~= args);
    assert(tail.subrange(p, p + text.len()) =~= text);
    assert(holds_in_turn(tail.take(p), seq![text].drop_last()));
}

/// What a build puts on its command line without the host, and what is then still pending.
proof fn lemma_settle_gains(input: BuildInput, build: BuildModel) -> (texts: Seq<Seq<char>>)
    requires
        build.verdict is Running,
        are_tasks_of(input, build.todo),
        input.source is Boot,
        build.cmdline is Some,
    ensures
        settle(input, build).cmdline is Some,
        !(settle(input, build).verdict is BadCmdline) ==> {
            &&& pending_texts(input, build.todo) == texts + pending_texts(
                input,
                settle(input, build).todo,
            )
            &&& gains(
                build.cmdline->0.boot_args,
                settle(input, build).cmdline->0.boot_args,
                texts,
            )
        },
    decreases build.todo.len(),
{
    let none = Seq::<Seq<char>>::empty();
    let pending = pending_texts(input, build.todo);
    assert(none + pending =~= pending);
    lemma_gains_nothing(build.cmdline->0.boot_args);
    if build.todo.len() == 0 {
        none
    } else {
        let rest = build.todo.drop_first();
        let settled = settle(input, build);
        assert(is_task_of(input, build.todo[0]));
        assert(are_tasks_of(input, rest));
        match build.todo[0] {
            Task::RootArguments(i) => {
                let block = input.resources.block@[i as int];
                let (cmdline, err) = root_arguments(build.cmdline->0, block);
                let open = BuildModel { todo: rest, cmdline: Some(cmdline), ..build };
                if err is None {
                    let more = lemma_settle_gains(input, open);
                    let texts = seq![root_text(block)] + more;
                    law_root_arguments(build.cmdline->0, block);
                    assert(cmdline.boot_args =~= appended(
                        build.cmdline->0.boot_args,
                        root_text(block),
                    ));
                    lemma_gains_text(build.cmdline->0.boot_args, root_text(block));
                    if !(settled.verdict is BadCmdline) {
                        lemma_gains_in_turn(
                            build.cmdline->0.boot_args,
                            seq![root_text(block)],
                            cmdline.boot_args,
                            more,
                            settled.cmdline->0.boot_args,
                        );
                        assert(pending =~= texts + pending_texts(input, settled.todo));
                    }
                    texts
                } else {
                    none
                }
            },
            Task::PlanPci | Task::PlanLegacyDevices => {
                let plan = planned(input, build, build.todo[0]);
                lemma_planned_puts_nothing(input, build, build.todo[0]);
                lemma_pending_replaced(input, build.todo, plan);
                none
            },
            Task::RequireFilter(category) => {
                if is_one_of(category.spec_name(), input.seccomp_filters@) {
                    lemma_settle_gains(input, BuildModel { todo: rest, ..build })
                } else {
                    none
                }
            },
            _ => none,
        }
    }
}

/// Each command line that the host hands back is the one that the build had, with something behind
/// its boot arguments.
pub open spec fn host_extends_cmdline(
    input: BuildInput,
    build: BuildModel,
    outcomes: Seq<Outcome>,
) -> bool
    decreases outcomes.len(),
{
    outcomes.len() > 0 ==> {
        &&& outcomes[0] matches Outcome::Cmdline(cmdline) ==> extends(
            build.cmdline->0.boot_args,
            model(cmdline).boot_args,
        )
        &&& host_extends_cmdline(
            input,
            step(input, build, outcomes[0]),
            outcomes.drop_first(),
        )
    }
}

/// Where the host only adds to the command line, a build that succeeds has the command line that it
/// began with, followed by what its tasks were to put there, in order, and by what the host added
/// before, between and behind.
pub proof fn law_cmdline_with_host(input: BuildInput, build: BuildModel, outcomes: Seq<Outcome>)
    requires
        is_build_of(input, build),
        input.source is Boot,
        build.verdict is Running,
        is_run(input, build, outcomes),
        run(input, build, outcomes).verdict is Built,
        host_extends_cmdline(input, build, outcomes),
    ensures
        run(input, build, outcomes).cmdline is Some,
        gains(
            build.cmdline->0.boot_args,
            run(input, build, outcomes).cmdline->0.boot_args,
            pending_texts(input, build.todo),
        ),
    decreases outcomes.len(),
{
    let outcome = outcomes[0];
    let next = step(input, build, outcome);
    let rest = outcomes.drop_first();
    let action = build.todo[0]->Host_0;
    let later = build.todo.drop_first();
    let none = Seq::<Seq<char>>::empty();
    let before = build.cmdline->0.boot_args;
    law_step_keeps_build(input, build, outcome);
    assert(is_run(input, next, rest));
    if rest.len() == 0 {
        assert(run(input, next, rest) == next);
    }
    assert(!(outcome is Failed)) by {
        if outcome is Failed {
            assert(rest.len() == 0);
        }
    }
    let followed = follow_up(input, build, action, outcome);
    let open = BuildModel { todo: followed + later, ..learn(build, outcome) };
    let told = open.cmdline->0.boot_args;
    assert(is_task_of(input, build.todo[0]));
    lemma_follow_up(input, build, action, outcome);
    lemma_follow_up_puts_nothing(input, build, action, outcome);
    lemma_pending_replaced(input, build.todo, followed);
    lemma_gains_nothing(before);
    assert(gains(before, told, none));
    let texts = lemma_settle_gains(input, open);
    lemma_settle_built(input, open);
    if rest.len() > 0 {
        law_cmdline_with_host(input, next, rest);
    } else {
        lemma_gains_nothing(next.cmdline->0.boot_args);
    }
    let left = pending_texts(input, next.todo);
    lemma_gains_in_turn(before, none, told, texts, next.cmdline->0.boot_args);
    lemma_gains_in_turn(
        before,
        none + texts,
        next.cmdline->0.boot_args,
        left,
        run(input, build, outcomes).cmdline->0.boot_args,
    );
    assert(none + texts + left =~= pending_texts(input, build.todo));
}

proof fn lemma_blocks_pending(input: BuildInput, count: nat, pci: bool)
    requires
        count <= input.resources.block@.len(),
    ensures
        pending_texts(input, blocks_plan(input.resources.block@.take(count as int), pci))
            == root_texts(input.resources.block@.take(count as int)),
    decreases count,
{
    let blocks = input.resources.block@.take(count as int);
    let is_root = |block: BlockDevice| block.root_device;
    let text = |block: BlockDevice| root_text(block);
    reveal(Seq::filter);
    if count > 0 {
        let i = count - 1;
        let before = input.resources.block@.take(i);
        let block = input.resources.block@[i];
        let attach = virtio_plan(DeviceHandle::Block(i as usize), pci, block.is_vhost_user);
        assert(input.resources.block@.len() == input.resources.block.len());
        lemma_blocks_pending(input, i as nat, pci);
        assert(blocks.drop_last() =~= before);
        assert(blocks.last() == block);
        lemma_pending_in_turn(input, blocks_plan(before, pci), block_plan(i, block, pci));
        assert(puts_nothing(attach));
        lemma_puts_nothing(input, attach);
        if block.root_device {
            let arguments = seq![Task::RootArguments(i as usize)];
            lemma_pending_in_turn(input, arguments, attach);
            assert(arguments.drop_first() =~= seq![]);
            assert(pending_texts(input, arguments.drop_first()) =~= seq![]);
            assert((i as usize) as int == i);
            assert(pending_texts(input, arguments) =~= seq![root_text(block)]);
            assert(pending_texts(input, block_plan(i, block, pci)) =~= seq![root_text(block)]);
            assert(blocks.filter(is_root) == before.filter(is_root).push(block));
            assert(blocks.filter(is_root).map_values(text) =~= before.filter(is_root).map_values(
                text,
            ) + seq![root_text(block)]);
        } else {
            assert(blocks.filter(is_root) == before.filter(is_root));
        }
        assert(pending_texts(input, blocks_plan(blocks, pci)) =~= root_texts(blocks));
    } else {
        assert(root_texts(blocks) =~= seq![]);
    }
}

proof fn lemma_nets_put_nothing(count: nat, pci: bool)
    ensures
        puts_nothing(nets_plan(count, pci)),
    decreases count,
{
    if count > 0 {
        lemma_nets_put_nothing((count - 1) as nat, pci);
    }
}

proof fn lemma_nothing_behind(input: BuildInput, first: Seq<Task>, rest: Seq<Task>)
    requires
        puts_nothing(rest),
    ensures
        pending_texts(input, first + rest) == pending_texts(input, first),
{
    lemma_pending_in_turn(input, first, rest);
    lemma_puts_nothing(input, rest);
    assert(pending_texts(input, first) + pending_texts(input, rest) =~= pending_texts(input, first));
}

proof fn lemma_devices_pending(input: BuildInput, pci: bool)
    ensures
        pending_texts(input, devices_plan(input.resources, pci)) == root_texts(
            input.resources.block@,
        ),
{
    let resources = input.resources;
    let balloon = tasks_if(
        resources.balloon is Some,
        virtio_plan(DeviceHandle::Balloon, pci, false),
    );
    let blocks = blocks_plan(resources.block@, pci);
    let nets = nets_plan(resources.net@.len(), pci);
    let vsock = tasks_if(resources.vsock is Some, virtio_plan(DeviceHandle::Vsock, pci, false));
    let entropy = tasks_if(
        resources.entropy is Some,
        virtio_plan(DeviceHandle::Entropy, pci, false),
    );
    lemma_blocks_pending(input, resources.block@.len(), pci);
    assert(resources.block@.take(resources.block@.len() as int) =~= resources.block@);
    lemma_nets_put_nothing(resources.net@.len(), pci);
    lemma_nothing_before(input, balloon, blocks);
    lemma_nothing_behind(input, balloon + blocks, nets);
    lemma_nothing_behind(input, balloon + blocks + nets, vsock);
    lemma_nothing_behind(input, balloon + blocks + nets + vsock, entropy);
}

/// The parts of booting other than the configured virtio devices put nothing on the command line.
proof fn lemma_others_put_nothing(resources: VmResources, pci: bool)
    ensures
        puts_nothing(machine_plan(resources, pci)),
        puts_nothing(boot_timer_plan(resources)),
        puts_nothing(passthrough_plan(resources)),
        puts_nothing(platform_plan(resources)),
        puts_nothing(launch_plan(resources)),
{
    let vmm = create_vmm_plan(
        resources.arch,
        pci,
        resources.vcpu_count,
        Capabilities::CpuTemplate,
    );
    assert(puts_nothing(vmm));
    assert(puts_nothing(guest_plan() + vmm));
}

proof fn lemma_boot_pending(input: BuildInput)
    ensures
        pending_texts(input, boot_plan(input.resources)) == root_texts(input.resources.block@),
{
    let resources = input.resources;
    let pci = resources.spec_pci_enabled(true);
    let machine = machine_plan(resources, pci);
    let timer = boot_timer_plan(resources);
    let devices = devices_plan(resources, pci);
    let vfio = passthrough_plan(resources);
    let legacy = platform_plan(resources);
    lemma_others_put_nothing(resources, pci);
    lemma_devices_pending(input, pci);
    lemma_nothing_behind(input, machine, timer);
    lemma_puts_nothing(input, machine);
    lemma_pending_in_turn(input, machine + timer, devices);
    assert(pending_texts(input, machine + timer) + pending_texts(input, devices)
        =~= pending_texts(input, devices));
    lemma_nothing_behind(input, machine + timer + devices, vfio);
    lemma_nothing_behind(input, machine + timer + devices + vfio, legacy);
    lemma_nothing_behind(
        input,
        machine + timer + devices + vfio + legacy,
        launch_plan(resources),
    );
}

/// The build is one that boots a machine from the input, to leave it paused or to let it run.
pub open spec fn boots(input: BuildInput, build: BuildModel) -> bool {
    can_boot(input) && (build == boot_build(input) || build == boot_and_run_build(input))
}

/// The command line that is configured.
pub open spec fn configured(input: BuildInput) -> CmdlineModel {
    model(input.resources.boot_config->0.cmdline)
}

/// A build that boots a machine begins with the configured command line, and is to put the arguments
/// of each root device there, in the order of the block devices.
pub proof fn law_boot_plans_root_arguments(input: BuildInput, build: BuildModel)
    requires
        boots(input, build),
    ensures
        is_build_of(input, build),
        build.verdict is Running,
        build.cmdline == Some(configured(input)),
        pending_texts(input, build.todo) == root_texts(input.resources.block@),
{
    let plan = boot_plan(input.resources);
    let resume = seq![Task::Host(Action::ResumeVm)];
    lemma_boot_build(input);
    lemma_boot_pending(input);
    assert(boot_and_run_plan(input.resources) =~= plan + resume);
    assert(puts_nothing(resume));
    lemma_nothing_behind(input, plan, resume);
    law_boot_is_in_order(input);
}

/// An x86_64 machine with a PCI bus is booted with the configured command line, followed by the
/// arguments of each root device in order, and with nothing else.
pub proof fn law_cmdline_of_machine_with_bus(
    input: BuildInput,
    build: BuildModel,
    outcomes: Seq<Outcome>,
)
    requires
        boots(input, build),
        input.spec_pci_enabled(),
        input.resources.arch == Arch::X86_64,
        is_run(input, build, outcomes),
        run(input, build, outcomes).verdict is Built,
    ensures
        run(input, build, outcomes).cmdline == Some(
            CmdlineModel {
                boot_args: with_texts(
                    configured(input).boot_args,
                    root_texts(input.resources.block@),
                ),
                ..configured(input)
            },
        ),
{
    law_boot_plans_root_arguments(input, build);
    assert forall|i: int| 0 <= i < outcomes.len() implies !(#[trigger] outcomes[i] is Cmdline) by {
        law_asked_is_allowed(input, build, outcomes, i);
    }
    law_cmdline_without_host(input, build, outcomes);
}

/// A machine is booted with the configured command line, followed by the arguments of each root
/// device in order, and by what the host added before, between and behind, where it only adds.
pub proof fn law_cmdline_of_booted_machine(
    input: BuildInput,
    build: BuildModel,
    outcomes: Seq<Outcome>,
)
    requires
        boots(input, build),
        is_run(input, build, outcomes),
        run(input, build, outcomes).verdict is Built,
        host_extends_cmdline(input, build, outcomes),
    ensures
        run(input, build, outcomes).cmdline is Some,
        gains(
            configured(input).boot_args,
            run(input, build, outcomes).cmdline->0.boot_args,
            root_texts(input.resources.block@),
        ),
{
    law_boot_plans_root_arguments(input, build);
    law_cmdline_with_host(input, build, outcomes);
}

proof fn lemma_settle_leaves_cmdline(input: BuildInput, build: BuildModel)
    requires
        puts_nothing(build.todo),
    ensures
        settle(input, build).cmdline == build.cmdline,
    decreases build.todo.len(),
{
    if build.todo.len() > 0 {
        let rest = build.todo.drop_first();
        assert(puts_nothing(rest));
        match build.todo[0] {
            Task::PlanVcpuRestore | Task::RequireFilter(_) => {
                lemma_settle_leaves_cmdline(input, BuildModel { todo: rest, ..build });
            },
            _ => {},
        }
    }
}

/// A build that is past the devices keeps its command line.
pub proof fn law_cmdline_stays(
    boot: bool,
    input: BuildInput,
    build: BuildModel,
    outcomes: Seq<Outcome>,
)
    requires
        is_build_of(input, build),
        is_run(input, build, outcomes),
        in_order(boot, build.todo),
        from_phase(boot, 16, build.todo),
    ensures
        run(input, build, outcomes).cmdline == build.cmdline,
    decreases outcomes.len(),
{
    if outcomes.len() > 0 {
        let outcome = outcomes[0];
        let next = step(input, build, outcome);
        let action = build.todo[0]->Host_0;
        let later = build.todo.drop_first();
        let followed = follow_up(input, build, action, outcome);
        law_step_keeps_build(input, build, outcome);
        lemma_step_in_order(boot, input, build, outcome);
        assert(phase(boot, build.todo[0]) >= 16);
        if !(outcome is Failed) {
            let open = BuildModel { todo: followed + later, ..learn(build, outcome) };
            lemma_follow_up_puts_nothing(input, build, action, outcome);
            assert(puts_nothing(later)) by {
                assert forall|i: int| 0 <= i < later.len() implies !(
                #[trigger] later[i] is RootArguments) by {
                    assert(phase(boot, build.todo[i + 1]) >= 16);
                }
            }
            assert(puts_nothing(open.todo));
            lemma_settle_leaves_cmdline(input, open);
        }
        law_cmdline_stays(boot, input, next, outcomes.drop_first());
    }
}

/// The system is configured for booting with the command line that the build ends with.
pub proof fn law_system_is_configured_with_final_cmdline(
    input: BuildInput,
    build: BuildModel,
    outcomes: Seq<Outcome>,
    i: int,
)
    requires
        boots(input, build),
        is_run(input, build, outcomes),
        0 <= i < outcomes.len(),
        asked(input, build, outcomes)[i] == Action::ConfigureSystem,
    ensures
        run(input, build, outcomes.take(i)).cmdline == run(input, build, outcomes).cmdline,
{
    let now = run(input, build, outcomes.take(i));
    law_boot_is_in_order(input);
    lemma_run_before(input, build, outcomes, i);
    lemma_run_after(input, build, outcomes, i);
    lemma_run_in_order(true, input, build, outcomes.take(i));
    assert forall|k: int| 0 <= k < now.todo.len() implies 16 <= phase(true, #[trigger] now.todo[k]) by {
        assert(phase(true, now.todo[0]) <= phase(true, now.todo[k]));
    }
    law_cmdline_stays(true, input, now, outcomes.skip(i));
}

} // verus!
