//! What a machine's ending and its assembly come to for the host and the guest.

use super::{
    ending_message, exit_of, line_of, lines_of, mmio_windows_of, param_text, pio_windows_of,
    reason_or_fault, roles_of, status_of, with_params, Plan, RoleView,
};
use super::controller::{memory_refusal, VmController};
use crate::config::DiskView;
use crate::control::{handled, Controller, Request, ResponseView};
use crate::devices::mem::{MemBacking, MemView};
use crate::devices::{Irq, StopView};
use crate::layout::{cmdline_words, slot, spaced, Arch, Slot};
use crate::text::laws::{law_decimal_reads_back, law_parsing_undoes_writing};
use crate::text::{begins, dec, hex0x, is_digit, is_space, natural, trimmed};
use vstd::prelude::*;

verus! {

/// What the guest reported is what the host sees, unless the guest broke or the monitor did; a guest
/// that stopped without a report is told from one that reported success.
pub proof fn law_what_the_guest_reported_is_what_the_host_sees(
    reason: StopView,
    reported: Option<i32>,
    panicked: bool,
)
    ensures
        ({
            let code = exit_of(reason, reported, panicked);
            &&& panicked || reason is Crash ==> code == 6
            &&& !panicked && reason is MonitorError ==> code == 8
            &&& !panicked && (reason is PowerOff || reason is Reset || reason is Killed) ==> code
                == (match reported {
                Some(c) => c,
                None => 7,
            })
        }),
{
}

/// A run that ended without a reason is a failure of the monitor, never a success.
pub proof fn law_no_reason_is_a_failure(reported: Option<i32>)
    ensures
        exit_of(reason_or_fault(None), reported, false) == 8,
        reason_or_fault(None) is MonitorError,
        forall|r: StopView| reason_or_fault(Some(r)) == r,
{
}

/// The host is told why of every run that did not report: of a panic, of what failed in the monitor,
/// and of a guest that stopped silently; and of nothing else.
pub proof fn law_silence_is_success(reason: StopView, reported: Option<i32>, panicked: bool)
    ensures
        ({
            let code = exit_of(reason, reported, panicked);
            let told = ending_message(reason, code);
            &&& told is None <==> code != 6 && code != 7 && !(reason is MonitorError)
            &&& !panicked && reason is MonitorError ==> crate::text::ends(
                told->0,
                reason->MonitorError_0,
            )
            &&& told matches Some(t) ==> begins(t, "moruna-vmm: "@)
        }),
{
    reveal_strlit("moruna-vmm: ");
    reveal_strlit("moruna-vmm: guest kernel panic; console follows");
    reveal_strlit("moruna-vmm: guest stopped (");
    let code = exit_of(reason, reported, panicked);
    let told = ending_message(reason, code);
    if let Some(t) = told {
        assert(t.subrange(0, 12) =~= "moruna-vmm: "@);
        if !panicked && reason is MonitorError {
            let m = reason->MonitorError_0;
            assert(t.subrange(t.len() - m.len(), t.len() as int) =~= m);
        }
    }
}

/// Every code that fits a byte is reported by its line, and no larger one.
pub proof fn law_every_exit_code_can_be_reported(code: nat)
    ensures
        status_of("exit "@ + dec(code)) == (if code <= 255 {
            Some(code as i32)
        } else {
            None
        }),
{
    law_decimal_reads_back(code);
    law_parsing_undoes_writing(code, 255);
    let d = dec(code);
    let s = "exit "@ + d;
    reveal_strlit("exit ");
    assert(is_digit(d[0]) && is_digit(d[d.len() - 1]));
    assert(s[0] == 'e' && s.last() == d.last());
    assert(trimmed(s) == s);
    assert(s.subrange(0, 5) =~= "exit "@);
    assert(s.subrange(5, s.len() as int) =~= d);
    assert(!is_space(d[0]) && !is_space(d.last()));
    assert(trimmed(d) == d);
    assert(natural(d, 255) == crate::text::parsed(d, 255));
}

/// Only such a line reports a code, and what it reports fits a byte.
pub proof fn law_only_exit_lines_report(line: Seq<char>)
    requires
        status_of(line) is Some,
    ensures
        begins(trimmed(line), "exit "@),
        0 <= status_of(line)->0 <= 255,
{
}

/// A guest has its vsock, its hot-plug memory where some is reserved, then its disks in the order of
/// the command line, each written to only where that was allowed; a root file system comes before
/// them and is never written to.
pub proof fn law_every_device_has_a_place(
    hotplug: Option<(u64, u64)>,
    rootfs: Option<Seq<char>>,
    disks: Seq<DiskView>,
    i: int,
)
    ensures
        ({
            let r = roles_of(hotplug, rootfs, disks);
            let m = if hotplug is Some {
                2int
            } else {
                1
            };
            let d = if rootfs is Some {
                m + 1
            } else {
                m
            };
            &&& r.len() == d + disks.len()
            &&& r[0] == RoleView::Vsock
            &&& hotplug matches Some(h) ==> r[1] == RoleView::Memory(h.0, h.1)
            &&& rootfs matches Some(p) ==> (r[m] matches RoleView::Disk(k, id) && k.path == p
                && k.read_only && id == "moruna-root"@)
            &&& 0 <= i < disks.len() ==> (r[d + i] matches RoleView::Disk(k, id) && k == disks[i]
                && crate::text::ends(id, dec(i as nat)))
        }),
{
    let r = roles_of(hotplug, rootfs, disks);
    if 0 <= i < disks.len() {
        let id = "moruna-disk-"@ + dec(i as nat);
        assert(id.subrange(id.len() - dec(i as nat).len(), id.len() as int) =~= dec(i as nat));
    }
}

/// No two disks have the same id.
pub proof fn law_disk_ids_are_distinct(
    hotplug: Option<(u64, u64)>,
    rootfs: Option<Seq<char>>,
    disks: Seq<DiskView>,
    i: int,
    j: int,
)
    requires
        0 <= i < j < roles_of(hotplug, rootfs, disks).len(),
    ensures
        ({
            let r = roles_of(hotplug, rootfs, disks);
            r[i] matches RoleView::Disk(_, a) && r[j] matches RoleView::Disk(_, b) && a == b
                ==> false
        }),
{
    let r = roles_of(hotplug, rootfs, disks);
    let base = r.len() - disks.len();
    reveal_strlit("moruna-root");
    reveal_strlit("moruna-disk-");
    if r[i] is Disk && r[j] is Disk {
        let b = "moruna-disk-"@ + dec((j - base) as nat);
        if i >= base {
            let a = "moruna-disk-"@ + dec((i - base) as nat);
            if a == b {
                assert(a.subrange(12, a.len() as int) =~= dec((i - base) as nat));
                assert(b.subrange(12, b.len() as int) =~= dec((j - base) as nat));
                crate::text::laws::law_decimals_tell_numbers_apart(
                    (i - base) as nat,
                    (j - base) as nat,
                );
            }
        } else if j >= base {
            assert(b[7] == 'd');
            assert("moruna-root"@[7] == 'r');
        }
    }
}

/// Each virtio device stands in its slot's window and raises its slot's line, whatever stands
/// beside them; the console, the reset port and the sleep registers stand where a PC has them.
pub proof fn law_devices_stand_in_their_slots(arch: Arch, n: nat, i: int)
    requires
        n <= 18,
        0 <= i < n,
    ensures
        ({
            let first = if arch is Aarch64 {
                1int
            } else {
                0
            };
            &&& mmio_windows_of(arch, n).len() == n + 1
            &&& mmio_windows_of(arch, n)[first + i] == (slot(arch, i).addr, 0x1000u64)
            &&& lines_of(arch, n)[1 + i] == slot(arch, i).gsi
            &&& arch is X86_64 ==> {
                &&& mmio_windows_of(arch, n)[n as int] == (0xfe00_0000u64, 0x10u64)
                &&& lines_of(arch, n)[0] == 4 && lines_of(arch, n)[n as int + 1] == 23
                &&& lines_of(arch, n).len() == n + 2
                &&& pio_windows_of(arch) == seq![(0x3f8u64, 8u64), (0x60, 5), (0x600, 3)]
            }
            &&& arch is Aarch64 ==> {
                &&& mmio_windows_of(arch, n)[0] == (0x0900_0000u64, 0x1000u64)
                &&& lines_of(arch, n)[0] == 33 && lines_of(arch, n).len() == n + 1
                &&& pio_windows_of(arch).len() == 0
            }
        }),
{
    assert(pio_windows_of(Arch::X86_64) =~= seq![(0x3f8u64, 8u64), (0x60, 5), (0x600, 3)]);
}

/// An initramfs lies on pages, below its top and within a page of it.
pub proof fn law_an_initramfs_is_as_high_as_it_fits(p: Plan, size: int)
    requires
        0 <= size <= p.layout.initrd_top(),
    ensures
        p.initrd_at(size) % 4096 == 0,
        p.initrd_at(size) + size <= p.layout.initrd_top() < p.initrd_at(size) + size + 4096,
        0 <= p.initrd_at(size),
{
}

/// A memory size is accepted exactly where it keeps the memory of the boot, stays within what was
/// allowed and reserved, and is a whole number of blocks.
pub proof fn law_which_memory_sizes_are_accepted(
    bytes: u64,
    boot: u64,
    max: u64,
    mem: Option<MemView>,
)
    ensures
        memory_refusal(bytes, boot, max, mem) is None <==> boot <= bytes <= max && mem is Some
            && bytes - boot <= mem->0.region_size && (bytes - boot) % 0x20_0000 == 0,
        memory_refusal(bytes, boot, max, mem) matches Some(e) ==> e is Control,
{
}

/// What a control request does is what it says. A resize that succeeded is what the status now
/// reports, and takes nothing else along; one that failed changes neither memory nor vCPUs; asking
/// for the status changes nothing; a stop ends a guest that was not ending already.
pub proof fn law_requests_do_what_they_say<B: MemBacking, I: Irq>(
    before: VmController<B, I>,
    request: Request,
    after: VmController<B, I>,
    answer: ResponseView,
)
    requires
        before.wf(),
        after.wf(),
        handled(before, request, after, answer),
    ensures
        answer.ok <==> answer.status is Some,
        answer.ok <==> answer.error is None,
        answer.status matches Some(s) ==> s == after.state(),
        match request {
            Request::ResizeMemory { bytes } => {
                &&& after.state().cpus == before.state().cpus
                &&& after.stop@ == before.stop@
                &&& answer.ok ==> answer.status->0.memory_bytes == bytes && before.boot_memory
                    <= bytes <= before.memory_max
                &&& before.state().memory_plugged_bytes == after.state().memory_plugged_bytes
            },
            Request::ResizeCpus { cpus } => {
                &&& after.memory() == before.memory() && after.stop@ == before.stop@
                &&& answer.ok ==> answer.status->0.cpus == cpus && cpus >= before.state().cpus
                &&& after.processors() matches Some(c) ==> {
                    &&& c.enabled <= c.inserting.len()
                    &&& before.processors() is Some
                    &&& c.inserting.len() == before.processors()->0.inserting.len()
                    &&& forall|i: int|
                        0 <= i < c.inserting.len() && #[trigger] c.inserting[i]
                            && !before.processors()->0.inserting[i]
                            ==> before.processors()->0.enabled <= i < c.enabled
                    &&& forall|i: int|
                        before.processors()->0.enabled <= i < c.enabled
                            ==> #[trigger] c.inserting[i]
                }
            },
            Request::Status => answer.ok && after == before,
            Request::Stop => {
                &&& answer.ok && answer.status->0.stopped
                &&& after.memory() == before.memory() && after.processors() == before.processors()
                &&& after.stop@ == Some(
                    match before.stop@ {
                        Some(r) => r,
                        None => StopView::Killed,
                    },
                )
            },
        },
{
}

/// A device is named to the kernel by its window of a page, where it is, and its interrupt.
pub proof fn law_a_device_is_named_by_its_place(s: Slot)
    ensures
        param_text(s) == "virtio_mmio.device="@ + seq!['4', 'K', '@'] + hex0x(s.addr as nat) + seq![
            ':',
        ] + dec(s.gsi as nat),
{
    reveal_strlit("virtio_mmio.device=4K@");
    reveal_strlit("virtio_mmio.device=");
    reveal_strlit(":");
    assert("virtio_mmio.device=4K@"@ =~= "virtio_mmio.device="@ + seq!['4', 'K', '@']);
    assert(":"@ =~= seq![':']);
}

/// Whether the text holds another behind a blank, at `at`.
pub open spec fn names_at(line: Seq<char>, word: Seq<char>, at: int) -> bool {
    &&& 0 < at && at + word.len() <= line.len()
    &&& line[at - 1] == ' '
    &&& line.subrange(at, at + word.len()) == word
}

/// An x86_64 kernel is told of every device, behind all else that it is told; an aarch64 one is told
/// of none here, as it has a device tree.
pub proof fn law_the_kernel_is_told_of_every_device(has_rootfs: bool, n: nat, i: int)
    requires
        0 <= i < n,
    ensures
        exists|at: int| #[trigger]
            names_at(
                line_of(Arch::X86_64, has_rootfs, n),
                param_text(slot(Arch::X86_64, i)),
                at,
            ),
        begins(
            line_of(Arch::X86_64, has_rootfs, n),
            spaced(cmdline_words(Arch::X86_64, has_rootfs)),
        ),
        line_of(Arch::Aarch64, has_rootfs, n) == spaced(
            cmdline_words(Arch::Aarch64, has_rootfs),
        ),
{
    let line = spaced(cmdline_words(Arch::X86_64, has_rootfs));
    lemma_params(line, n, i);
    let all = line_of(Arch::X86_64, has_rootfs, n);
    assert(all == with_params(Arch::X86_64, line, n));
    let word = param_text(slot(Arch::X86_64, i));
    let at = choose|at: int| #[trigger]
        names_at(with_params(Arch::X86_64, line, n), word, at);
    assert(names_at(all, word, at));
}

proof fn lemma_params(line: Seq<char>, n: nat, i: int)
    requires
        0 <= i < n,
    ensures
        exists|at: int| #[trigger]
            names_at(
                with_params(Arch::X86_64, line, n),
                param_text(slot(Arch::X86_64, i)),
                at,
            ),
        begins(with_params(Arch::X86_64, line, n), line),
    decreases n,
{
    reveal_strlit(" ");
    let before = with_params(Arch::X86_64, line, (n - 1) as nat);
    let last = param_text(slot(Arch::X86_64, n - 1));
    let all = with_params(Arch::X86_64, line, n);
    assert(all == before + " "@ + last);
    if n == 1 {
        assert(before == line);
    } else {
        lemma_params(
            line,
            (n - 1) as nat,
            if i < n - 1 {
                i
            } else {
                0
            },
        );
    }
    assert(all.subrange(0, line.len() as int) =~= before.subrange(0, line.len() as int));
    assert(before.subrange(0, line.len() as int) == line) by {
        assert(line.subrange(0, line.len() as int) =~= line);
    }
    if i == n - 1 {
        let at = before.len() as int + 1;
        assert(all.subrange(at, at + last.len()) =~= last);
        assert(names_at(all, last, at));
    } else {
        let word = param_text(slot(Arch::X86_64, i));
        let at = choose|at: int| #[trigger] names_at(before, word, at);
        assert(all.subrange(at, at + word.len()) =~= before.subrange(at, at + word.len()));
        assert(names_at(all, word, at));
    }
}

/// The status tells how much memory the guest was asked to have and how much it has, both counted
/// with that of the boot, and how many of its vCPUs are enabled.
pub proof fn law_the_status_counts_everything<B: MemBacking, I: Irq>(c: VmController<B, I>)
    requires
        c.wf(),
    ensures
        c.state().memory_max_bytes == c.memory_max,
        c.state().cpus_max == c.cpus_max,
        c.state().stopped <==> c.stop@ is Some,
        c.memory() matches Some(m) ==> c.state().memory_bytes == c.boot_memory + m.requested_size
            && c.state().memory_plugged_bytes == c.boot_memory + m.plugged_size,
        c.memory() is None ==> c.state().memory_bytes == c.boot_memory
            && c.state().memory_plugged_bytes == c.boot_memory,
        c.processors() matches Some(p) ==> c.state().cpus == p.enabled,
        c.processors() is None ==> c.state().cpus == c.cpus_boot,
{
}

/// A request for vCPUs is refused if it takes some away or asks for more than there can be; without
/// a hot-plug controller it is refused unless it asks for what there is.
pub proof fn law_which_numbers_of_cpus_are_refused<B: MemBacking, I: Irq>(
    before: VmController<B, I>,
    cpus: u32,
    r: crate::error::Result<crate::control::Status>,
    after: VmController<B, I>,
)
    requires
        before.wf(),
        before.cpus_resized(cpus, r, &after),
    ensures
        before.processors() matches Some(c) ==> (cpus < c.enabled || cpus > c.inserting.len()
            ==> r is Err && after.processors() == before.processors()),
        before.processors() is None ==> (r is Ok <==> cpus == before.cpus_boot),
        before.processors() matches Some(c) ==> (c.enabled <= cpus <= c.inserting.len() ==> (
        after.processors() matches Some(d) && d.enabled == cpus)),
{
}

} // verus!
