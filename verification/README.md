# moruna

The logic of Moruna's microVM monitor and of the data plane around it, verified with
[Verus](https://github.com/verus-lang/verus).

- `src/` is the library. Every function in it is verified against its contract; what it relies on
  of other crates is stated in the wrappers that call them, each with a doc comment.
  - `cli`, `config`, `control`, `session`, `error`: the command line, the rules a configuration
    keeps, control requests, one run in a VM, errors and exit codes.
  - `layout`, `boot`, `acpi`, `fdt`, `loader`, `machine`, `kvm`, `image`: the memory map, the boot
    tables and registers, the device tree, kernels, the plan of a machine, what vCPU exits mean,
    guest images.
  - `devices`: the buses, the virtio-mmio transport, block, vsock, memory hot-plug, CPU hot-plug,
    the console's log and the stop ports.
  - `sources`, `testkit`, `trace`: planning and reading of tensors and row groups, in-memory
    stand-ins for the kernel's seams, trace views and run reports.
  - `bytes`, `text`, `paths`, `sorted_map`, `sys`: what the rest is written with.
- `app/` is `moruna-vmm`, ordinary Rust around the library: files, sockets, threads and KVM.
- `tests/` runs the library with the real crates behind its wrappers.

A proof function named `law_...` states a property that spans several functions.
