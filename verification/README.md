# microvm_builder

Builds microVMs: decides what has to be done to boot a virtual machine, or to restore one from a
snapshot, in which order, with which addresses and numbers, and which error a failure ends in. The
decisions are written in Verus and proved; doing the work is left to a host.

A build is a list of tasks. `Build::action` says what the host has to do next, and `Build::step` takes
in what came of it:

    let mut build = build_microvm_for_boot(resources, seccomp_filters)?;
    while let Some(action) = build.action() {
        let outcome = host.perform(action);
        assert!(build.accepts(&outcome));
        build.step(outcome);
    }

## Layout

- `src/`: the verified library
  - `builder`: the recipes, and the builds that they begin
  - `recipe`, `vmm`, `virtio`, `pci`, `vfio`, `root`: what a build consists of
  - `layout`: where devices live in the guest physical address space
  - `cmdline`: the kernel command line, on top of `linux-loader`
  - `failure`, `error`: the errors
  - `resources`, `task`: what a build is made from, and what it asks for
  - `model`: what a build is, as a mathematical object
  - `admission`: which tasks a build can begin with, for flavors that are put together elsewhere
  - `laws`, `recipe_laws`, `running_laws`, `order_laws`, `filter_laws`, `attach_laws`,
    `cmdline_laws`, `progress`: what holds of every build: that work is done in the order of its
    phases, and each device attached once, that a build succeeds only with all of it done, that no
    thread is started without its seccomp filter, what the kernel command line comes to, that every
    build comes to an end, and more
- `tests/`: builds against a host that makes up the outcomes
- `app/`: a host on KVM, VFIO and an event manager
