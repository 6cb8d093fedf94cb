[package]
name = "microvm_builder"
version = "0.1.0"
edition = "2021"
publish = false

[dependencies]
displaydoc = "=0.2.7"
event-manager = "=0.4.2"
kvm-bindings = "=0.14.2"
kvm-ioctls = "=0.24.0"
libc = "0.2"
linux-loader = "=0.13.2"
thiserror = "=2.0.21"
vfio-ioctls = { version = "=0.5.2", default-features = false, features = ["kvm"] }
vm-allocator = "=0.1.4"
vm-memory = { version = "=0.17.1", features = ["backend-mmap"] }
vm-superio = "=0.8.2"
vmm-sys-util = "=0.15.0"
