[package]
name = "virtio_mmio"
version = "0.1.0"
edition = "2021"
publish = false

[dependencies]
anyhow = "=1.0.104"
byteorder = "=1.5.0"
device_tree = "=1.1.0"
libc = "=0.2.191"
log = "=0.4.34"
serde = { version = "=1.0.229", features = ["derive"] }
versionize = "=0.2.0"
versionize_derive = "=0.1.6"
virtio-queue = "=0.18.0"
vm-fdt = "=0.3.0"
vm-memory = { version = "=0.18.0", features = ["backend-mmap", "backend-atomic"] }
vmm-sys-util = "=0.15.0"
