//! What a kernel reads from the device tree, node by node.

use super::{
    chosen_steps, clock_steps, console_path, cpu_steps, cpus_steps, each_cpu, each_range, each_slot,
    gic_reg, gic_steps, machine_steps, memory_steps, mpidr_of, psci_steps, root_steps, timer_steps,
    uart_steps, unit_name, virtio_steps, FdtSpec, Step, Value,
};
use crate::layout::Slot;
use vstd::prelude::*;

verus! {

/// Whether the step `p` is in the node that begins at `b`, before any node in it.
pub open spec fn within(steps: Seq<Step>, b: int, p: int) -> bool {
    &&& 0 <= b < p < steps.len()
    &&& forall|k: int| b < k < p ==> !((#[trigger] steps[k]) is Begin) && !(steps[k] is End)
}

/// Whether the tree has a node of this name with the property `name` at `v`.
pub open spec fn says(steps: Seq<Step>, node: Seq<char>, name: Seq<char>, v: Value) -> bool {
    exists|b: int, p: int| #[trigger]
        within(steps, b, p) && steps[b] == Step::Begin(node) && steps[p] == Step::Property(name, v)
}

/// Whether the tree has a node of this name that others refer to by `h`.
pub open spec fn is_called(steps: Seq<Step>, node: Seq<char>, h: u32) -> bool {
    exists|b: int, p: int| #[trigger]
        within(steps, b, p) && steps[b] == Step::Begin(node) && steps[p] == Step::Handle(h)
}

/// Whether no step of the tree is a property of this name.
pub open spec fn never_says(steps: Seq<Step>, name: Seq<char>) -> bool {
    forall|i: int| 0 <= i < steps.len() ==> ((#[trigger] steps[i]) matches Step::Property(n, _) ==> n != name)
}

/// Whether every property of this name, wherever it stands, is at `v`.
pub open spec fn says_only(steps: Seq<Step>, name: Seq<char>, v: Value) -> bool {
    forall|i: int|
        0 <= i < steps.len() ==> ((#[trigger] steps[i]) matches Step::Property(n, w) ==> n == name
            ==> w == v)
}

/// What a part of a tree says, the tree says.
proof fn lemma_part(a: Seq<Step>, part: Seq<Step>, c: Seq<Step>, b: int, p: int)
    requires
        within(part, b, p),
    ensures
        within(a + part + c, a.len() + b, a.len() + p),
        (a + part + c)[a.len() + b] == part[b],
        (a + part + c)[a.len() + p] == part[p],
{
    let all = a + part + c;
    assert forall|k: int| a.len() + b < k < a.len() + p implies !((#[trigger] all[k]) is Begin) && !(
    all[k] is End) by {
        assert(all[k] == part[k - a.len()]);
    }
}

/// The tree around the node of the command line.
spec fn before_chosen(s: FdtSpec) -> Seq<Step> {
    root_steps() + cpus_steps(s.cpus as nat) + each_range(s.layout.ram@)
}

spec fn after_chosen(s: FdtSpec) -> Seq<Step> {
    gic_steps(s.gic, s.cpus) + timer_steps() + psci_steps() + clock_steps() + uart_steps()
        + each_slot(s.virtio@) + seq![Step::End]
}

proof fn lemma_around_chosen(s: FdtSpec)
    ensures
        machine_steps(s) == before_chosen(s) + chosen_steps(s.cmdline@, s.initrd) + after_chosen(s),
{
    assert(machine_steps(s) =~= before_chosen(s) + chosen_steps(s.cmdline@, s.initrd)
        + after_chosen(s));
}

proof fn lemma_names_of_chosen()
    ensures
        ({
            let own = |n: Seq<char>|
                n == "linux,initrd-start"@ || n == "linux,initrd-end"@ || n == "bootargs"@ || n
                    == "stdout-path"@;
            &&& !own("compatible"@) && !own("#address-cells"@) && !own("#size-cells"@) && !own(
                "interrupt-parent"@,
            ) && !own("device_type"@) && !own("enable-method"@) && !own("reg"@) && !own(
                "#interrupt-cells"@,
            ) && !own("interrupt-controller"@) && !own("always-on"@) && !own("interrupts"@) && !own(
                "method"@,
            ) && !own("#clock-cells"@) && !own("clock-frequency"@) && !own("dma-coherent"@)
        }),
        "linux,initrd-start"@ != "linux,initrd-end"@,
        "bootargs"@ != "stdout-path"@,
        "bootargs"@ != "linux,initrd-start"@,
        "bootargs"@ != "linux,initrd-end"@,
        "stdout-path"@ != "linux,initrd-start"@,
        "stdout-path"@ != "linux,initrd-end"@,
{
    reveal_strlit("linux,initrd-start");
    reveal_strlit("linux,initrd-end");
    reveal_strlit("bootargs");
    reveal_strlit("stdout-path");
    reveal_strlit("compatible");
    reveal_strlit("#address-cells");
    reveal_strlit("#size-cells");
    reveal_strlit("interrupt-parent");
    reveal_strlit("device_type");
    reveal_strlit("enable-method");
    reveal_strlit("reg");
    reveal_strlit("#interrupt-cells");
    reveal_strlit("interrupt-controller");
    reveal_strlit("always-on");
    reveal_strlit("interrupts");
    reveal_strlit("method");
    reveal_strlit("#clock-cells");
    reveal_strlit("clock-frequency");
    reveal_strlit("dma-coherent");
    assert("linux,initrd-start"@.len() == 18 && "linux,initrd-end"@.len() == 16);
    assert("linux,initrd-start"@[0] == 'l' && "linux,initrd-end"@[0] == 'l');
    assert("bootargs"@[0] == 'b' && "stdout-path"@[0] == 's');
    assert("compatible"@[0] == 'c' && "#address-cells"@[0] == '#' && "#size-cells"@[0] == '#');
    assert("interrupt-parent"@[0] == 'i' && "device_type"@[0] == 'd' && "enable-method"@[0] == 'e');
    assert("reg"@[0] == 'r' && "#interrupt-cells"@[0] == '#' && "interrupt-controller"@[0] == 'i');
    assert("always-on"@[0] == 'a' && "interrupts"@[0] == 'i' && "method"@[0] == 'm');
    assert("#clock-cells"@[0] == '#' && "clock-frequency"@[0] == 'c' && "dma-coherent"@[0] == 'd');
}

/// A name that only the node of the command line has.
spec fn of_chosen(n: Seq<char>) -> bool {
    n == "linux,initrd-start"@ || n == "linux,initrd-end"@ || n == "bootargs"@ || n
        == "stdout-path"@
}

proof fn lemma_cpus_never_say(n: nat, name: Seq<char>)
    requires
        of_chosen(name),
    ensures
        never_says(each_cpu(n), name),
    decreases n,
{
    lemma_names_of_chosen();
    if n > 0 {
        lemma_cpus_never_say((n - 1) as nat, name);
        assert(never_says(cpu_steps(n - 1), name));
    }
}

proof fn lemma_ranges_never_say(ram: Seq<(u64, u64)>, name: Seq<char>)
    requires
        of_chosen(name),
    ensures
        never_says(each_range(ram), name),
    decreases ram.len(),
{
    lemma_names_of_chosen();
    if ram.len() > 0 {
        lemma_ranges_never_say(ram.drop_last(), name);
        assert(never_says(memory_steps(ram.last()), name));
    }
}

proof fn lemma_slots_never_say(slots: Seq<Slot>, name: Seq<char>)
    requires
        of_chosen(name),
    ensures
        never_says(each_slot(slots), name),
    decreases slots.len(),
{
    lemma_names_of_chosen();
    if slots.len() > 0 {
        lemma_slots_never_say(slots.drop_last(), name);
        assert(never_says(virtio_steps(slots.last()), name));
    }
}

proof fn lemma_others_never_say(s: FdtSpec, name: Seq<char>)
    requires
        of_chosen(name),
    ensures
        never_says(before_chosen(s), name),
        never_says(after_chosen(s), name),
{
    lemma_names_of_chosen();
    lemma_cpus_never_say(s.cpus as nat, name);
    lemma_ranges_never_say(s.layout.ram@, name);
    lemma_slots_never_say(s.virtio@, name);
    assert(never_says(root_steps(), name));
    assert(never_says(cpus_steps(s.cpus as nat), name));
    assert(never_says(before_chosen(s), name));
    assert(never_says(gic_steps(s.gic, s.cpus), name));
    assert(never_says(timer_steps(), name));
    assert(never_says(psci_steps(), name));
    assert(never_says(clock_steps(), name));
    assert(never_says(uart_steps(), name));
    assert(never_says(seq![Step::End], name));
    let a = gic_steps(s.gic, s.cpus) + timer_steps();
    assert(never_says(a, name));
    let b = a + psci_steps() + clock_steps() + uart_steps();
    assert(never_says(b, name));
    assert(never_says(after_chosen(s), name));
}

/// The kernel finds its initramfs where it lies: what the tree says of its end, less what it says
/// of its start, is its length. A tree without an initramfs says nothing of one.
pub proof fn law_the_initramfs_is_where_the_tree_says(s: FdtSpec)
    requires
        s.initrd matches Some(r) ==> r.0 + r.1 <= u64::MAX,
    ensures
        match s.initrd {
            Some((start, len)) => exists|a: u64, e: u64|
                {
                    &&& #[trigger] says(
                        machine_steps(s),
                        "chosen"@,
                        "linux,initrd-start"@,
                        Value::Long(a),
                    )
                    &&& #[trigger] says(
                        machine_steps(s),
                        "chosen"@,
                        "linux,initrd-end"@,
                        Value::Long(e),
                    )
                    &&& says_only(machine_steps(s), "linux,initrd-start"@, Value::Long(a))
                    &&& says_only(machine_steps(s), "linux,initrd-end"@, Value::Long(e))
                    &&& a == start && e - a == len
                },
            None => never_says(machine_steps(s), "linux,initrd-start"@) && never_says(
                machine_steps(s),
                "linux,initrd-end"@,
            ),
        },
{
    lemma_names_of_chosen();
    lemma_around_chosen(s);
    lemma_others_never_say(s, "linux,initrd-start"@);
    lemma_others_never_say(s, "linux,initrd-end"@);
    let c = chosen_steps(s.cmdline@, s.initrd);
    let a = before_chosen(s);
    let z = after_chosen(s);
    let all = machine_steps(s);
    if let Some((start, len)) = s.initrd {
        let e = (start + len) as u64;
        assert(c.len() == 6);
        assert(c[3] == Step::Property("linux,initrd-start"@, Value::Long(start)));
        assert(c[4] == Step::Property("linux,initrd-end"@, Value::Long(e)));
        assert(within(c, 0, 3));
        assert(within(c, 0, 4));
        lemma_part(a, c, z, 0, 3);
        lemma_part(a, c, z, 0, 4);
        assert(says(all, "chosen"@, "linux,initrd-start"@, Value::Long(start)));
        assert(says(all, "chosen"@, "linux,initrd-end"@, Value::Long(e)));
        assert(says_only(c, "linux,initrd-start"@, Value::Long(start)));
        assert(says_only(c, "linux,initrd-end"@, Value::Long(e)));
        lemma_only(a, c, z, "linux,initrd-start"@, Value::Long(start));
        lemma_only(a, c, z, "linux,initrd-end"@, Value::Long(e));
    } else {
        assert(c.len() == 4);
        assert(never_says(c, "linux,initrd-start"@));
        assert(never_says(c, "linux,initrd-end"@));
        lemma_never(a, c, z, "linux,initrd-start"@);
        lemma_never(a, c, z, "linux,initrd-end"@);
    }
}

proof fn lemma_only(a: Seq<Step>, c: Seq<Step>, z: Seq<Step>, name: Seq<char>, v: Value)
    requires
        never_says(a, name),
        says_only(c, name, v),
        never_says(z, name),
    ensures
        says_only(a + c + z, name, v),
{
    let all = a + c + z;
    assert forall|i: int| 0 <= i < all.len() implies ((#[trigger] all[i]) matches Step::Property(
        n,
        w,
    ) ==> n == name ==> w == v) by {
        if i < a.len() {
            assert(all[i] == a[i]);
        } else if i < a.len() + c.len() {
            assert(all[i] == c[i - a.len()]);
        } else {
            assert(all[i] == z[i - a.len() - c.len()]);
        }
    }
}

proof fn lemma_never(a: Seq<Step>, c: Seq<Step>, z: Seq<Step>, name: Seq<char>)
    requires
        never_says(a, name),
        never_says(c, name),
        never_says(z, name),
    ensures
        never_says(a + c + z, name),
{
    let all = a + c + z;
    assert forall|i: int| 0 <= i < all.len() implies ((#[trigger] all[i]) matches Step::Property(
        n,
        _,
    ) ==> n != name) by {
        if i < a.len() {
            assert(all[i] == a[i]);
        } else if i < a.len() + c.len() {
            assert(all[i] == c[i - a.len()]);
        } else {
            assert(all[i] == z[i - a.len() - c.len()]);
        }
    }
}

/// The kernel is given its command line as it is, and its console at the path of the node that
/// describes the serial port.
pub proof fn law_the_command_line_is_passed_on(s: FdtSpec)
    ensures
        says(machine_steps(s), "chosen"@, "bootargs"@, Value::Text(s.cmdline@)),
        says_only(machine_steps(s), "bootargs"@, Value::Text(s.cmdline@)),
        exists|b: int| #![trigger machine_steps(s)[b]]
            0 <= b < machine_steps(s).len() && (machine_steps(s)[b] matches Step::Begin(node) && says(
                machine_steps(s),
                "chosen"@,
                "stdout-path"@,
                Value::Text(seq!['/'] + node),
            ) && says(
                machine_steps(s),
                node,
                "reg"@,
                Value::Longs(seq![0x0900_0000u64, 0x1000]),
            ) && says(machine_steps(s), node, "compatible"@, Value::Text("ns16550a"@))),
{
    lemma_names_of_chosen();
    lemma_around_chosen(s);
    lemma_others_never_say(s, "bootargs"@);
    let c = chosen_steps(s.cmdline@, s.initrd);
    let a = before_chosen(s);
    let z = after_chosen(s);
    let all = machine_steps(s);
    assert(c[1] == Step::Property("bootargs"@, Value::Text(s.cmdline@)));
    assert(within(c, 0, 1));
    assert(within(c, 0, 2));
    lemma_part(a, c, z, 0, 1);
    lemma_part(a, c, z, 0, 2);
    assert(says_only(c, "bootargs"@, Value::Text(s.cmdline@)));
    lemma_only(a, c, z, "bootargs"@, Value::Text(s.cmdline@));
    let node = unit_name("uart"@, 0x0900_0000);
    reveal_strlit("/uart@");
    reveal_strlit("uart");
    reveal_strlit("@");
    assert(console_path() =~= seq!['/'] + node);
    let u = uart_steps();
    let ua = a + c + gic_steps(s.gic, s.cpus) + timer_steps() + psci_steps() + clock_steps();
    let uz = each_slot(s.virtio@) + seq![Step::End];
    assert(all =~= ua + u + uz);
    assert(within(u, 0, 1));
    assert(within(u, 0, 2));
    lemma_part(ua, u, uz, 0, 1);
    lemma_part(ua, u, uz, 0, 2);
    assert(u[2] == Step::Property("reg"@, Value::Longs(seq![0x0900_0000u64, 0x1000])));
    let b = ua.len() as int;
    assert(all[b] == Step::Begin(node));
    assert(all[a.len() as int + 2] == Step::Property("stdout-path"@, Value::Text(seq!['/'] + node)));
    assert(says(all, "chosen"@, "stdout-path"@, Value::Text(seq!['/'] + node)));
    assert(says(all, node, "reg"@, Value::Longs(seq![0x0900_0000u64, 0x1000])));
    assert(says(all, node, "compatible"@, Value::Text("ns16550a"@)));
}

/// Where the steps of vCPU `i` lie among those of the first `n`.
proof fn lemma_cpu_at(n: nat, i: int)
    requires
        0 <= i < n,
    ensures
        exists|a: Seq<Step>, z: Seq<Step>| #[trigger] (a + cpu_steps(i) + z) == each_cpu(n),
    decreases n,
{
    if i == n - 1 {
        let a = each_cpu((n - 1) as nat);
        assert(a + cpu_steps(i) + Seq::<Step>::empty() =~= each_cpu(n));
    } else {
        lemma_cpu_at((n - 1) as nat, i);
        let (a, z) = choose|a: Seq<Step>, z: Seq<Step>| #[trigger]
            (a + cpu_steps(i) + z) == each_cpu((n - 1) as nat);
        let y = z + cpu_steps(n - 1);
        assert(a + cpu_steps(i) + y =~= each_cpu(n));
    }
}

/// Every vCPU of the boot has a node with its own number, started through PSCI; vCPUs that differ
/// have numbers that differ, whose lowest byte stays below sixteen.
pub proof fn law_every_cpu_is_described(s: FdtSpec, i: int)
    requires
        0 <= i < s.cpus,
    ensures
        ({
            let node = unit_name("cpu"@, mpidr_of(i) as u64);
            &&& says(machine_steps(s), node, "reg"@, Value::Word(mpidr_of(i)))
            &&& says(machine_steps(s), node, "device_type"@, Value::Text("cpu"@))
            &&& says(machine_steps(s), node, "enable-method"@, Value::Text("psci"@))
        }),
{
    lemma_cpu_at(s.cpus as nat, i);
    let (a, z) = choose|a: Seq<Step>, z: Seq<Step>| #[trigger]
        (a + cpu_steps(i) + z) == each_cpu(s.cpus as nat);
    let all = machine_steps(s);
    let head = cpus_steps(s.cpus as nat).subrange(0, 3);
    let left = root_steps() + head + a;
    let right = z + seq![Step::End] + each_range(s.layout.ram@) + chosen_steps(s.cmdline@, s.initrd)
        + after_chosen(s);
    let c = cpu_steps(i);
    assert(cpus_steps(s.cpus as nat) =~= head + (a + c + z) + seq![Step::End]);
    lemma_around_chosen(s);
    assert(all =~= left + c + right);
    assert(within(c, 0, 1));
    assert(within(c, 0, 3));
    assert(within(c, 0, 4));
    lemma_part(left, c, right, 0, 1);
    lemma_part(left, c, right, 0, 3);
    lemma_part(left, c, right, 0, 4);
}

/// vCPUs that differ have numbers that differ, with at most sixteen in a cluster.
pub proof fn law_cpu_numbers_are_distinct(i: int, j: int)
    requires
        0 <= i < j < 0x1000_0000,
    ensures
        mpidr_of(i) != mpidr_of(j),
        mpidr_of(i) as int % 256 < 16,
        mpidr_of(i) as int / 256 * 16 + mpidr_of(i) as int % 256 == i,
{
}

proof fn lemma_range_at(ram: Seq<(u64, u64)>, i: int)
    requires
        0 <= i < ram.len(),
    ensures
        exists|a: Seq<Step>, z: Seq<Step>| #[trigger] (a + memory_steps(ram[i]) + z) == each_range(ram),
    decreases ram.len(),
{
    let rest = ram.drop_last();
    if i == ram.len() - 1 {
        let a = each_range(rest);
        assert(a + memory_steps(ram[i]) + Seq::<Step>::empty() =~= each_range(ram));
    } else {
        lemma_range_at(rest, i);
        assert(rest[i] == ram[i]);
        let (a, z) = choose|a: Seq<Step>, z: Seq<Step>| #[trigger]
            (a + memory_steps(ram[i]) + z) == each_range(rest);
        let y = z + memory_steps(ram.last());
        assert(a + memory_steps(ram[i]) + y =~= each_range(ram));
    }
}

/// Every range of memory has a node that says where it begins and how long it is.
pub proof fn law_all_memory_is_described(s: FdtSpec, i: int)
    requires
        0 <= i < s.layout.ram@.len(),
    ensures
        ({
            let r = s.layout.ram@[i];
            let node = unit_name("memory"@, r.0);
            &&& says(machine_steps(s), node, "reg"@, Value::Longs(seq![r.0, r.1]))
            &&& says(machine_steps(s), node, "device_type"@, Value::Text("memory"@))
        }),
{
    let ram = s.layout.ram@;
    lemma_range_at(ram, i);
    let c = memory_steps(ram[i]);
    let (a, z) = choose|a: Seq<Step>, z: Seq<Step>| #[trigger]
        (a + memory_steps(ram[i]) + z) == each_range(ram);
    let left = root_steps() + cpus_steps(s.cpus as nat) + a;
    let right = z + chosen_steps(s.cmdline@, s.initrd) + after_chosen(s);
    lemma_around_chosen(s);
    assert(machine_steps(s) =~= left + c + right);
    assert(within(c, 0, 1));
    assert(within(c, 0, 2));
    lemma_part(left, c, right, 0, 1);
    lemma_part(left, c, right, 0, 2);
}

proof fn lemma_slot_at(slots: Seq<Slot>, i: int)
    requires
        0 <= i < slots.len(),
    ensures
        exists|a: Seq<Step>, z: Seq<Step>| #[trigger] (a + virtio_steps(slots[i]) + z) == each_slot(
            slots,
        ),
    decreases slots.len(),
{
    let rest = slots.drop_last();
    if i == slots.len() - 1 {
        let a = each_slot(rest);
        assert(a + virtio_steps(slots[i]) + Seq::<Step>::empty() =~= each_slot(slots));
    } else {
        lemma_slot_at(rest, i);
        assert(rest[i] == slots[i]);
        let (a, z) = choose|a: Seq<Step>, z: Seq<Step>| #[trigger]
            (a + virtio_steps(slots[i]) + z) == each_slot(rest);
        let y = z + virtio_steps(slots.last());
        assert(a + virtio_steps(slots[i]) + y =~= each_slot(slots));
    }
}

/// Every virtio device has a node that says where its registers lie and which shared interrupt it
/// raises, on rising edges.
pub proof fn law_every_device_is_described(s: FdtSpec, i: int)
    requires
        0 <= i < s.virtio@.len(),
    ensures
        ({
            let d = s.virtio@[i];
            let node = unit_name("virtio_mmio"@, d.addr);
            &&& says(machine_steps(s), node, "reg"@, Value::Longs(seq![d.addr, 0x1000]))
            &&& says(machine_steps(s), node, "interrupts"@, Value::Words(seq![0u32, d.gsi, 1]))
            &&& says(machine_steps(s), node, "compatible"@, Value::Text("virtio,mmio"@))
            &&& says(machine_steps(s), node, "dma-coherent"@, Value::Nothing)
        }),
{
    let slots = s.virtio@;
    lemma_slot_at(slots, i);
    let c = virtio_steps(slots[i]);
    let (a, z) = choose|a: Seq<Step>, z: Seq<Step>| #[trigger]
        (a + virtio_steps(slots[i]) + z) == each_slot(slots);
    let left = before_chosen(s) + chosen_steps(s.cmdline@, s.initrd) + gic_steps(s.gic, s.cpus)
        + timer_steps() + psci_steps() + clock_steps() + uart_steps() + a;
    let right = z + seq![Step::End];
    lemma_around_chosen(s);
    assert(machine_steps(s) =~= left + c + right);
    assert(within(c, 0, 1));
    assert(within(c, 0, 2));
    assert(within(c, 0, 3));
    assert(within(c, 0, 4));
    lemma_part(left, c, right, 0, 1);
    lemma_part(left, c, right, 0, 2);
    lemma_part(left, c, right, 0, 3);
    lemma_part(left, c, right, 0, 4);
    assert(c[3] == Step::Property("interrupts"@, Value::Words(seq![0u32, slots[i].gsi, 1])));
}

/// The controller's windows are the distributor's and one for every vCPU, or the one they share, and
/// do not overlap.
pub proof fn law_the_controller_has_room_for_every_cpu(s: FdtSpec)
    requires
        s.cpus <= 0x1000,
    ensures
        gic_reg(s.gic, s.cpus).len() == 4,
        gic_reg(s.gic, s.cpus)[0] == 0x0800_0000,
        s.gic is V3 ==> gic_reg(s.gic, s.cpus)[3] == s.cpus * 0x2_0000 && gic_reg(s.gic, s.cpus)[2]
            == 0x080a_0000,
        s.gic is V2 ==> gic_reg(s.gic, s.cpus)[3] == 0x2000 && gic_reg(s.gic, s.cpus)[2]
            == 0x0801_0000,
        gic_reg(s.gic, s.cpus)[0] + gic_reg(s.gic, s.cpus)[1] <= gic_reg(s.gic, s.cpus)[2],
{
}

/// Interrupts go to the controller's node: it is the one that the root names, it says of which kind
/// it is, and where its windows lie.
#[verifier::rlimit(60)]
pub proof fn law_interrupts_have_a_controller(s: FdtSpec)
    ensures
        ({
            let node = unit_name("intc"@, 0x0800_0000);
            exists|h: u32|
                {
                    &&& #[trigger] is_called(machine_steps(s), node, h)
                    &&& says(machine_steps(s), ""@, "interrupt-parent"@, Value::Word(h))
                    &&& says(
                        machine_steps(s),
                        node,
                        "compatible"@,
                        Value::Text(
                            if s.gic is V3 {
                                "arm,gic-v3"@
                            } else {
                                "arm,cortex-a15-gic"@
                            },
                        ),
                    )
                    &&& says(machine_steps(s), node, "reg"@, Value::Longs(gic_reg(s.gic, s.cpus)))
                    &&& says(machine_steps(s), node, "#interrupt-cells"@, Value::Word(3))
                    &&& says(machine_steps(s), node, "interrupt-controller"@, Value::Nothing)
                }
        }),
{
    let node = unit_name("intc"@, 0x0800_0000);
    let all = machine_steps(s);
    let g = gic_steps(s.gic, s.cpus);
    let left = before_chosen(s) + chosen_steps(s.cmdline@, s.initrd);
    let right = timer_steps() + psci_steps() + clock_steps() + uart_steps() + each_slot(s.virtio@)
        + seq![Step::End];
    lemma_around_chosen(s);
    assert(all =~= left + g + right);
    assert(within(g, 0, 1));
    assert(within(g, 0, 2));
    assert(within(g, 0, 3));
    assert(within(g, 0, 4));
    assert(within(g, 0, 7));
    lemma_part(left, g, right, 0, 1);
    lemma_part(left, g, right, 0, 2);
    lemma_part(left, g, right, 0, 3);
    lemma_part(left, g, right, 0, 4);
    lemma_part(left, g, right, 0, 7);
    let r = root_steps();
    let none = Seq::<Step>::empty();
    let rest = all.subrange(5, all.len() as int);
    assert(all =~= none + r + rest);
    assert(within(r, 0, 4));
    lemma_part(none, r, rest, 0, 4);
    let h = 1u32;
    assert(is_called(all, node, h));
    assert(all[4] == Step::Property("interrupt-parent"@, Value::Word(h)));
    assert(all[0] == Step::Begin(""@));
    assert(says(all, ""@, "interrupt-parent"@, Value::Word(h)));
}

/// vCPUs are started and stopped by hypervisor calls, and the timer's four interrupts are private
/// ones, by level.
pub proof fn law_power_and_time(s: FdtSpec)
    ensures
        says(machine_steps(s), "psci"@, "method"@, Value::Text("hvc"@)),
        says(
            machine_steps(s),
            "timer"@,
            "interrupts"@,
            Value::Words(seq![1u32, 13, 4, 1, 14, 4, 1, 11, 4, 1, 10, 4]),
        ),
        says(machine_steps(s), ""@, "#address-cells"@, Value::Word(2)),
        says(machine_steps(s), ""@, "#size-cells"@, Value::Word(2)),
        says(machine_steps(s), "cpus"@, "#address-cells"@, Value::Word(1)),
        says(machine_steps(s), "cpus"@, "#size-cells"@, Value::Word(0)),
{
    let all = machine_steps(s);
    lemma_around_chosen(s);
    let t = timer_steps();
    let ta = before_chosen(s) + chosen_steps(s.cmdline@, s.initrd) + gic_steps(s.gic, s.cpus);
    let tz = psci_steps() + clock_steps() + uart_steps() + each_slot(s.virtio@) + seq![Step::End];
    assert(all =~= ta + t + tz);
    assert(t[3] == Step::Property(
        "interrupts"@,
        Value::Words(seq![1u32, 13, 4, 1, 14, 4, 1, 11, 4, 1, 10, 4]),
    ));
    assert(within(t, 0, 3));
    lemma_part(ta, t, tz, 0, 3);
    let p = psci_steps();
    let pz = clock_steps() + uart_steps() + each_slot(s.virtio@) + seq![Step::End];
    assert(all =~= (ta + t) + p + pz);
    assert(within(p, 0, 2));
    lemma_part(ta + t, p, pz, 0, 2);
    let r = root_steps();
    let none = Seq::<Step>::empty();
    let rest = all.subrange(5, all.len() as int);
    assert(all =~= none + r + rest);
    assert(within(r, 0, 2));
    assert(within(r, 0, 3));
    lemma_part(none, r, rest, 0, 2);
    lemma_part(none, r, rest, 0, 3);
    let c = cpus_steps(s.cpus as nat);
    let cz = each_range(s.layout.ram@) + chosen_steps(s.cmdline@, s.initrd) + after_chosen(s);
    assert(all =~= r + c + cz);
    assert(within(c, 0, 1));
    assert(within(c, 0, 2));
    lemma_part(r, c, cz, 0, 1);
    lemma_part(r, c, cz, 0, 2);
}

/// The console is a UART with the clock that a PC's has, at 0x0900_0000 and on interrupt 33, and it is
/// the one that the kernel prints to. The machine's clock ticks at 24 MHz.
pub proof fn law_the_console_is_described(s: FdtSpec)
    ensures
        ({
            let node = unit_name("uart"@, 0x0900_0000);
            let all = machine_steps(s);
            &&& says(all, node, "compatible"@, Value::Text("ns16550a"@))
            &&& says(all, node, "reg"@, Value::Longs(seq![0x0900_0000u64, 0x1000]))
            &&& says(all, node, "clock-frequency"@, Value::Word(1843200))
            &&& says(all, node, "interrupts"@, Value::Words(seq![0u32, 33, 1]))
            &&& says(all, "apb-pclk"@, "clock-frequency"@, Value::Word(24000000))
            &&& says(all, "apb-pclk"@, "compatible"@, Value::Text("fixed-clock"@))
        }),
{
    let all = machine_steps(s);
    let u = uart_steps();
    let c = clock_steps();
    let left = before_chosen(s) + chosen_steps(s.cmdline@, s.initrd) + gic_steps(s.gic, s.cpus)
        + timer_steps() + psci_steps();
    let right = each_slot(s.virtio@) + seq![Step::End];
    lemma_around_chosen(s);
    assert(all =~= left + c + (u + right));
    assert(all =~= (left + c) + u + right);
    assert(u[2] == Step::Property("reg"@, Value::Longs(seq![0x0900_0000u64, 0x1000])));
    assert(u[4] == Step::Property("interrupts"@, Value::Words(seq![0u32, 33, 1])));
    assert(within(u, 0, 1));
    assert(within(u, 0, 2));
    assert(within(u, 0, 3));
    assert(within(u, 0, 4));
    lemma_part(left + c, u, right, 0, 1);
    lemma_part(left + c, u, right, 0, 2);
    lemma_part(left + c, u, right, 0, 3);
    lemma_part(left + c, u, right, 0, 4);
    assert(within(c, 0, 1));
    assert(within(c, 0, 3));
    lemma_part(left, c, u + right, 0, 1);
    lemma_part(left, c, u + right, 0, 3);
}

} // verus!
