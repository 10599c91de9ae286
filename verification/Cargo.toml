[package]
name = "moruna"
version = "0.1.0"
edition = "2021"
publish = false

[dependencies]
acpi_tables = "*"
arrow = { version = "*", default-features = false, features = ["ipc"] }
kvm-bindings = { version = "*", features = ["fam-wrappers"] }
kvm-ioctls = "*"
libc = "*"
linux-loader = { version = "*", features = ["elf", "bzimage"] }
serde = { version = "*", features = ["derive"] }
serde_json = "*"
sha2 = "*"
virtio-bindings = "*"
virtio-queue = "*"
vm-fdt = "*"
vm-memory = { version = "*", features = ["backend-mmap"] }
vm-superio = "*"
vmm-sys-util = "*"
