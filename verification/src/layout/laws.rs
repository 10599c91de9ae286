//! Where a guest finds its memory and its devices.

use super::{boot_ram, cmdline_words, end_of, hotplug_region, slot, spaced, Arch, Layout};
use crate::text::hex0x;
use vstd::prelude::*;

verus! {

/// An x86_64 guest has its memory from 0 on, but for the gigabyte below 4 GiB, which is the devices';
/// an aarch64 guest has it from 2 GiB on in one piece.
pub proof fn law_where_memory_is(memory: u64, a: int)
    requires
        memory <= 0x100_0000_0000,
    ensures
        (exists|i: int|
            0 <= i < boot_ram(Arch::X86_64, memory).len() && (#[trigger] boot_ram(
                Arch::X86_64,
                memory,
            )[i]).0 <= a < end_of(boot_ram(Arch::X86_64, memory)[i])) <==> (0 <= a < memory && a
            < 0xc000_0000) || (0x1_0000_0000 <= a < memory + 0x4000_0000),
        (exists|i: int|
            0 <= i < boot_ram(Arch::Aarch64, memory).len() && (#[trigger] boot_ram(
                Arch::Aarch64,
                memory,
            )[i]).0 <= a < end_of(boot_ram(Arch::Aarch64, memory)[i])) <==> 0x8000_0000 <= a < memory
            + 0x8000_0000,
{
    let x = boot_ram(Arch::X86_64, memory);
    let r = boot_ram(Arch::Aarch64, memory);
    assert(r[0] == (0x8000_0000u64, memory));
    if memory <= 0xc000_0000 {
        assert(x[0] == (0u64, memory));
    } else {
        assert(x[0] == (0u64, 0xc000_0000u64));
        assert(x[1] == (0x1_0000_0000u64, (memory - 0xc000_0000) as u64));
    }
}

/// Memory that is added later lies above all that there is at first, on a machine of x86_64 above
/// 4 GiB, in blocks of 128 MiB, as few of them as hold it.
pub proof fn law_where_later_memory_is(arch: Arch, memory: u64, more: u64)
    requires
        memory <= 0x100_0000_0000,
        0 < more <= 0x100_0000_0000,
    ensures
        hotplug_region(arch, memory, 0) is None,
        hotplug_region(arch, memory, more) matches Some((start, len)) && {
            &&& start % 0x800_0000 == 0 && len % 0x800_0000 == 0
            &&& more <= len < more + 0x800_0000
            &&& forall|i: int|
                0 <= i < boot_ram(arch, memory).len() ==> end_of(#[trigger] boot_ram(arch, memory)[i])
                    <= start
            &&& arch is X86_64 ==> start >= 0x1_0000_0000
            &&& start < 0x1_0000_0000 + memory + 0x800_0000
        },
{
}

/// The devices' windows follow each other by pages, from 0xd000_0000 on x86_64 and 0x0a00_0000 on
/// aarch64, and their interrupts by ones, from 5 and from 48.
pub proof fn law_where_devices_are(i: int)
    requires
        0 <= i < 18,
    ensures
        slot(Arch::X86_64, i).addr == 0xd000_0000 + 0x1000 * i,
        slot(Arch::X86_64, i).gsi == 5 + i,
        slot(Arch::Aarch64, i).addr == 0xa00_0000 + 0x1000 * i,
        slot(Arch::Aarch64, i).gsi == 48 + i,
{
}

/// The initramfs ends below the top of low memory; on aarch64 below the last 2 MiB of it, where the
/// device tree is.
pub proof fn law_what_is_above_the_initramfs(l: Layout)
    requires
        l.ram@.len() > 0,
    ensures
        l.arch is X86_64 ==> l.initrd_top() == end_of(l.ram@[0]),
        l.arch is Aarch64 ==> l.initrd_top() == end_of(l.ram@[0]) - 0x20_0000,
{
}

/// Whether a command line has this word.
pub open spec fn has_word(words: Seq<Seq<char>>, w: Seq<char>) -> bool {
    exists|i: int| 0 <= i < words.len() && #[trigger] words[i] == w
}

/// Every guest prints to the serial console, stops on a panic and takes memory that is added; it has
/// a root disk to look for exactly if there is one. On x86_64 it resets through the keyboard
/// controller and has no PCI; on aarch64 it prints from the start to the console at 0x0900_0000.
pub proof fn law_what_the_kernel_is_told(arch: Arch, has_rootfs: bool)
    ensures
        ({
            let w = cmdline_words(arch, has_rootfs);
            &&& has_word(w, "console=ttyS0"@) && has_word(w, "panic=1"@)
            &&& has_word(w, "memhp_default_state=online_movable"@) && has_word(w, "quiet"@)
            &&& has_rootfs ==> has_word(w, "moruna.root=moruna-root"@)
            &&& arch is X86_64 ==> has_word(w, "reboot=k"@) && has_word(w, "pci=off"@)
            &&& arch is Aarch64 ==> has_word(w, "earlycon=uart,mmio,"@ + hex0x(0x900_0000))
            &&& w.len() == (if arch is X86_64 {
                9int
            } else {
                5
            }) + if has_rootfs {
                1int
            } else {
                0
            }
        }),
{
    let w = cmdline_words(arch, has_rootfs);
    let n = w.len();
    assert(w[0] == "console=ttyS0"@);
    assert(w[n - 1] == "quiet"@);
    if arch is X86_64 {
        assert(w[1] == "reboot=k"@);
        assert(w[2] == "pci=off"@);
        assert(w[6] == "panic=1"@);
        assert(w[7] == "memhp_default_state=online_movable"@);
        if has_rootfs {
            assert(w[8] == "moruna.root=moruna-root"@);
        }
    } else {
        assert(w[1] == "earlycon=uart,mmio,"@ + hex0x(0x900_0000));
        assert(w[2] == "panic=1"@);
        assert(w[3] == "memhp_default_state=online_movable"@);
        if has_rootfs {
            assert(w[4] == "moruna.root=moruna-root"@);
        }
    }
}

/// Words stand on a line one behind the other, with a blank between each two.
pub proof fn law_words_stand_on_one_line(words: Seq<Seq<char>>, w: Seq<char>)
    ensures
        spaced(Seq::empty()) == Seq::<char>::empty(),
        spaced(seq![w]) == w,
        words.len() > 0 ==> spaced(words.push(w)) == spaced(words) + seq![' '] + w,
{
    reveal_strlit(" ");
    assert(" "@ =~= seq![' ']);
    assert(seq![w][0] == w);
    let all = words.push(w);
    assert(all.drop_last() =~= words);
    assert(all.last() == w);
}

} // verus!
