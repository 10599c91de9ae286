//! What the boot state means to the processor and the kernel that find it.

use super::{
    bit_width, boot_word, e820_map, gdt, lint_set, patched, segment_of, topology_shift,
};
use crate::layout::{boot_ram, x86, Arch, Layout};
use vstd::arithmetic::power2::pow2;
use vstd::prelude::*;

verus! {

/// Whether the boot tables hold the word `w` at the address `a`.
pub open spec fn stored(a: int, w: int) -> bool {
    exists|i: int| 0 <= i < 519 && (#[trigger] boot_word(i)).0 == a && boot_word(i).1 == w
}

/// Whether a walk of the page tables at `root` for the address `v` finds these three entries, each
/// present and writable, the last one of a large page.
pub open spec fn walked(root: int, v: int, top: int, mid: int, leaf: int) -> bool {
    &&& stored(root + 8 * (v / 0x80_0000_0000 % 512), top)
    &&& stored(top / 4096 * 4096 + 8 * (v / 0x4000_0000 % 512), mid)
    &&& stored(mid / 4096 * 4096 + 8 * (v / 0x20_0000 % 512), leaf)
    &&& top % 4 == 3 && mid % 4 == 3 && leaf % 4 == 3
    &&& top / 128 % 2 == 0 && mid / 128 % 2 == 0 && leaf / 128 % 2 == 1
}

/// Every address of the first gigabyte is mapped to itself by the tables that the first vCPU is
/// pointed at.
pub proof fn law_low_memory_is_mapped_to_itself(v: int)
    requires
        0 <= v < 0x4000_0000,
    ensures
        exists|top: int, mid: int, leaf: int| #[trigger]
            walked(x86::PML4_ADDR as int, v, top, mid, leaf) && leaf / 0x20_0000 * 0x20_0000 + v
                % 0x20_0000 == v,
{
    let k = v / 0x20_0000;
    let top = boot_word(5).1 as int;
    let mid = boot_word(6).1 as int;
    let leaf = boot_word(7 + k).1 as int;
    assert(stored(boot_word(5).0 as int, top));
    assert(stored(boot_word(6).0 as int, mid));
    assert(stored(boot_word(7 + k).0 as int, leaf));
    assert(v / 0x80_0000_0000 % 512 == 0);
    assert(v / 0x4000_0000 % 512 == 0);
    assert(walked(x86::PML4_ADDR as int, v, top, mid, leaf));
}

/// Whether an address is memory to a kernel that reads `map`.
pub open spec fn usable(map: Seq<(u64, u64, u32)>, a: int) -> bool {
    exists|i: int|
        0 <= i < map.len() && (#[trigger] map[i]).2 == 1 && map[i].0 <= a < map[i].0 + map[i].1
}

/// Whether an address lies in one of the ranges.
pub open spec fn among(ranges: Seq<(u64, u64)>, a: int) -> bool {
    exists|i: int| 0 <= i < ranges.len() && (#[trigger] ranges[i]).0 <= a < ranges[i].0 + ranges[i].1
}

/// The map tells the kernel of all its memory and of nothing else, but for the hole that firmware
/// has below the first megabyte; no address is told of twice.
pub proof fn law_the_memory_map_is_the_memory(l: Layout, memory: u64, a: int)
    requires
        0x9_fc00 <= memory,
        l.ram@ == boot_ram(Arch::X86_64, memory),
    ensures
        usable(e820_map(l), a) <==> among(l.ram@, a) && !(0x9_fc00 <= a < 0x10_0000),
        forall|i: int, j: int|
            0 <= i < j < e820_map(l).len() ==> (#[trigger] e820_map(l)[i]).0 + e820_map(l)[i].1 <= (
            #[trigger] e820_map(l)[j]).0,
{
    let map = e820_map(l);
    let ram = l.ram@;
    let low = l.low_ram_end_spec();
    assert(map[0] == (0u64, 0x9_fc00u64, 1u32));
    if low > 0x10_0000 {
        assert(map[1] == (0x10_0000u64, (low - 0x10_0000) as u64, 1u32));
        if ram.len() > 1 {
            assert(map.len() == 3);
            assert(map[2] == (ram[1].0, ram[1].1, 1u32));
        } else {
            assert(map.len() == 2);
        }
    } else {
        assert(ram.len() == 1);
        assert(map.len() == 1);
    }
    if usable(map, a) {
        let i = choose|i: int|
            0 <= i < map.len() && (#[trigger] map[i]).2 == 1 && map[i].0 <= a < map[i].0 + map[i].1;
        if i == 2 {
            assert(ram[1].0 <= a);
        } else {
            assert(ram[0].0 <= a < ram[0].0 + ram[0].1);
        }
    }
    if among(ram, a) && !(0x9_fc00 <= a < 0x10_0000) {
        let i = choose|i: int|
            0 <= i < ram.len() && (#[trigger] ram[i]).0 <= a < ram[i].0 + ram[i].1;
        if i == 1 {
            assert(map[2].0 <= a);
        } else if a < 0x9_fc00 {
            assert(map[0].0 <= a);
        } else {
            assert(map[1].0 <= a);
        }
    }
}

/// A number's width is the fewest bits that hold it.
pub proof fn law_widths_are_tight(n: nat)
    ensures
        n < pow2(bit_width(n)),
        bit_width(n) > 0 ==> pow2((bit_width(n) - 1) as nat) <= n,
    decreases n,
{
    if n == 0 {
        vstd::arithmetic::power2::lemma2_to64();
    } else {
        law_widths_are_tight(n / 2);
        vstd::arithmetic::power2::lemma_pow2_unfold(bit_width(n));
        if n / 2 > 0 {
            vstd::arithmetic::power2::lemma_pow2_unfold((bit_width(n) - 1) as nat);
        } else {
            vstd::arithmetic::power2::lemma2_to64();
        }
    }
}

/// Shifting any vCPU's id by what the topology says leaves nothing, and a shift less would not do:
/// so all vCPUs are of one package.
pub proof fn law_all_cpus_are_of_one_package(cpus: u32, id: u32)
    requires
        id < cpus,
    ensures
        (id as int) < pow2(topology_shift(cpus)),
        topology_shift(cpus) > 0 ==> pow2((topology_shift(cpus) - 1) as nat) < cpus,
{
    law_widths_are_tight((cpus - 1) as nat);
}

/// Each vCPU reads its own number, the count of all, and that it runs under a hypervisor; what the
/// host says otherwise of these leaves, and all of the other ones, it reads as the host does.
pub proof fn law_a_cpu_knows_its_number(
    function: u32,
    index: u32,
    r: Seq<u32>,
    id: u32,
    cpus_max: u32,
)
    requires
        r.len() == 4,
    ensures
        ({
            let p = patched(function, index, r, id, cpus_max);
            &&& p.len() == 4
            &&& function != 1 && function != 11 ==> p == r
            &&& function == 1 ==> {
                &&& p[0] == r[0]
                &&& p[1] as int / 0x100_0000 == id as int % 256
                &&& cpus_max <= 255 ==> p[1] as int / 0x1_0000 % 256 == cpus_max
                &&& cpus_max > 255 ==> p[1] as int / 0x1_0000 % 256 == 255
                &&& p[1] as int % 0x1_0000 == r[1] as int % 0x1_0000
                &&& p[2] as int / 0x8000_0000 == 1
                &&& p[2] as int % 0x8000_0000 == r[2] as int % 0x8000_0000
                &&& p[3] as int / 0x1000_0000 % 2 == 1
                &&& p[3] as int % 0x1000_0000 == r[3] as int % 0x1000_0000
                &&& p[3] as int / 0x2000_0000 == r[3] as int / 0x2000_0000
            }
            &&& function == 11 ==> {
                &&& p[3] == id
                &&& index < 256 ==> p[2] as int % 256 == index
                &&& index == 0 ==> p[2] as int / 256 == 1 && p[1] == 1 && p[0] == 0
                &&& index == 1 ==> p[2] as int / 256 == 2 && p[1] == cpus_max
                &&& 1 < index < 256 ==> p[2] as int / 256 == 0 && p[1] == 0 && p[0] == 0
            }
        }),
{
}

/// The first local interrupt pin takes external interrupts and the second one non-maskable ones;
/// nothing else in the local APIC changes.
pub proof fn law_local_pins(r: Seq<u8>, i: int)
    requires
        r.len() >= 0x364,
        0 <= i < r.len(),
    ensures
        lint_set(r).len() == r.len(),
        lint_set(r)[0x351] as int % 8 == 7,
        lint_set(r)[0x361] as int % 8 == 4,
        lint_set(r)[i] as int / 8 == r[i] as int / 8,
        i != 0x351 && i != 0x361 ==> lint_set(r)[i] == r[i],
{
}

/// The last byte that a segment reaches is its limit, in bytes or in pages of 4096: with the widest
/// limit in pages a segment reaches all of the first 4 GiB.
pub proof fn law_what_a_segment_reaches(flags: u16, base: u32, limit: u32, index: u16)
    requires
        limit < 0x10_0000,
        index < 8192,
    ensures
        flags < 0x8000 ==> segment_of(gdt(flags, base, limit), index).limit == limit,
        flags >= 0x8000 ==> segment_of(gdt(flags, base, limit), index).limit + 1 == (limit + 1)
            * 4096,
{
    super::law_segment_undoes_gdt_entry(flags, base, limit, index);
}

} // verus!
