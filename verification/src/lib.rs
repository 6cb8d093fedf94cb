//! Pre-boot setup and building of microVMs.
//!
//! A build is a list of tasks. The build says what the host has to do next; the host does it and
//! reports what came of it; and the build goes on from there, until everything is done or something
//! went wrong. What the host is asked for, in which order, with which numbers, and which error a
//! failure ends in, is decided here and proved.
//!
//! - [`builder`]: the builds and the recipes for them
//! - [`recipe`], [`vmm`], [`virtio`], [`pci`], [`vfio`], [`root`]: what a build consists of
//! - [`layout`]: where devices live in the guest physical address space
//! - [`cmdline`]: the kernel command line
//! - [`failure`], [`error`]: which error a failure ends in
//! - [`resources`], [`task`]: what a build is made from, and what it asks for
//! - [`model`]: what a build is
//! - [`admission`]: which tasks a build can begin with
//! - [`laws`], [`recipe_laws`], [`running_laws`], [`order_laws`], [`turn_laws`], [`filter_laws`],
//!   [`attach_laws`], [`cmdline_laws`], [`progress`]: what holds of every build
//! - [`machine_laws`], [`bus_laws`], [`report_laws`], [`soundness_laws`], [`planning_laws`],
//!   [`error_laws`]: what the configuration, and each report of the host, comes to
pub mod admission;
pub mod attach_laws;
pub mod builder;
pub mod bus_laws;
pub mod cmdline;
pub mod cmdline_laws;
pub mod error;
pub mod error_laws;
pub mod failure;
pub mod filter_laws;
pub mod laws;
pub mod layout;
pub mod machine_laws;
pub mod model;
pub mod order_laws;
pub mod pci;
pub mod planning_laws;
pub mod progress;
pub mod recipe;
pub mod recipe_laws;
pub mod report_laws;
pub mod resources;
pub mod root;
pub mod running_laws;
pub mod soundness_laws;
pub mod task;
pub mod turn_laws;
pub mod vfio;
pub mod virtio;
pub mod vmm;
