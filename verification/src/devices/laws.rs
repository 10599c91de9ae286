//! What the guest and the host can rely on of the simple devices.

use super::block::{Action, BlockView, Todo};
use super::cpu_hotplug::CpuHotplug;
use super::legacy::{AcpiPm, I8042};
use super::serial::silent;
use super::{Device, DeviceKind, StopView};
use crate::bytes::{le_at, le_bytes};
use vstd::prelude::*;

verus! {

/// Each device has the id that its driver looks for: 2 a disk, 19 the socket, 24 the memory.
pub proof fn law_drivers_find_their_devices(k: DeviceKind)
    ensures
        k is Block <==> k.spec_virtio_id() == Some(2u32),
        k is Vsock <==> k.spec_virtio_id() == Some(19u32),
        k is Mem <==> k.spec_virtio_id() == Some(24u32),
        k is Serial || k is CpuHotplug || k is Legacy <==> k.spec_virtio_id() is None,
{
}

/// Writing 0xFE to the controller's command port, port 4 of its window, resets the machine. Nothing
/// else that is written there does anything.
pub proof fn law_only_the_reset_line_resets(d: I8042, after: I8042, offset: u64, data: Seq<u8>)
    requires
        d.writes(&after, offset, data),
        d.stopped() is None,
    ensures
        after.stopped() == if offset == 4 && data.len() == 1 && data[0] == 254 {
            Some(StopView::Reset)
        } else {
            None
        },
{
    if data.len() == 1 && data[0] == 254 {
        assert(data =~= seq![254u8]);
    }
}

/// The sleep control register powers off on a sleep of type 5 that is started, the reset register
/// resets on a 1, and nothing else that is written to the sleep and reset registers does anything.
pub proof fn law_sleep_and_reset(d: AcpiPm, after: AcpiPm, offset: u64, data: Seq<u8>)
    requires
        d.writes(&after, offset, data),
        d.stopped() is None,
    ensures
        after.stopped() == if data.len() == 1 && offset == 0 && data[0] / 4 % 8 == 5 && data[0] / 32
            % 2 == 1 {
            Some(StopView::PowerOff)
        } else if data.len() == 1 && offset == 2 && data[0] == 1 {
            Some(StopView::Reset)
        } else {
            None
        },
{
    if data.len() == 1 {
        let v = data[0];
        assert((v & 0x20 != 0) == (v / 32 % 2 == 1) && (v >> 2) & 7 == v / 4 % 8) by (bit_vector);
    }
}

/// A machine that stops has one reason to: what is written once it has one changes nothing.
pub proof fn law_a_stopped_machine_stays_stopped(
    k: I8042,
    k2: I8042,
    p: AcpiPm,
    p2: AcpiPm,
    offset: u64,
    data: Seq<u8>,
)
    requires
        k.writes(&k2, offset, data),
        p.writes(&p2, offset, data),
    ensures
        k.stopped() is Some ==> k2.stopped() == k.stopped(),
        p.stopped() is Some ==> p2.stopped() == p.stopped(),
{
}

/// Selecting a CPU and reading the status register tells of that CPU: its low bit whether it is
/// enabled, the next one whether it was inserted and not seen.
pub proof fn law_the_status_is_of_the_selected_cpu(
    c: CpuHotplug,
    selected: CpuHotplug,
    after: CpuHotplug,
    id: u32,
    before: Seq<u8>,
    data: Seq<u8>,
)
    requires
        c@.wf(),
        c.writes(&selected, 0, le_bytes(id as nat, 4)),
        selected.reads(&after, 4, before, data),
        before.len() > 0,
    ensures
        data.len() == before.len(),
        data[0] % 2 == 1 <==> id < c@.enabled,
        data[0] / 2 % 2 == 1 <==> id < c@.inserting.len() && c@.inserting[id as int],
        data[0] < 4,
        forall|i: int| 0 < i < data.len() ==> data[i] == 0,
        after@ == selected@,
        selected@.inserting == c@.inserting,
{
    lemma_le4(id);
    crate::bytes::lemma_le_bytes_len(id as nat, 4);
}

/// What was selected is read back.
pub proof fn law_the_selected_cpu_reads_back(
    c: CpuHotplug,
    selected: CpuHotplug,
    after: CpuHotplug,
    id: u32,
    before: Seq<u8>,
    data: Seq<u8>,
)
    requires
        c.writes(&selected, 0, le_bytes(id as nat, 4)),
        selected.reads(&after, 0, before, data),
        before.len() == 4,
    ensures
        le_at(data, 0, 4) == id,
{
    lemma_le4(id);
    crate::bytes::lemma_le_bytes_len(id as nat, 4);
}

proof fn lemma_le4(id: u32)
    ensures
        le_at(le_bytes(id as nat, 4), 0, 4) == id,
{
    let b = le_bytes(id as nat, 4);
    crate::bytes::lemma_le_bytes_len(id as nat, 4);
    assert(b.subrange(0, 4) =~= b);
    reveal_with_fuel(crate::bytes::le_bound, 5);
    crate::bytes::lemma_le_round_trip(b, 0, id as nat, 4);
}

/// A write to the status register takes the mark off the selected CPU if its second bit is set, and
/// off no other; it enables and disables nothing.
pub proof fn law_marks_are_taken_off_one_by_one(
    c: CpuHotplug,
    after: CpuHotplug,
    data: Seq<u8>,
    i: int,
)
    requires
        c.writes(&after, 4, data),
        data.len() > 0,
        0 <= i < c@.inserting.len(),
    ensures
        after@.enabled == c@.enabled && after@.selected == c@.selected,
        after@.inserting.len() == c@.inserting.len(),
        after@.inserting[i] == if i == c@.selected && data[0] / 2 % 2 == 1 {
            false
        } else {
            c@.inserting[i]
        },
{
    let v = data[0];
    assert((v & 2 != 0) == (v / 2 % 2 == 1)) by (bit_vector);
}

/// What is kept of a console's output is its end: all of it, or its last 65536 bytes.
pub proof fn law_the_log_is_the_end_of_the_output(out: Seq<u8>)
    ensures
        ({
            let kept = silent().recorded(out).tail;
            &&& kept.len() == if out.len() <= 65536 {
                out.len()
            } else {
                65536
            }
            &&& forall|i: int|
                0 <= i < kept.len() ==> kept[i] == out[out.len() - kept.len() + i]
        }),
{
    assert(Seq::<u8>::empty() + out =~= out);
}

/// Whether a disk of so many sectors has `len` bytes from this sector on.
pub open spec fn on_disk(sectors: u64, sector: u64, len: nat) -> bool {
    len % 512 == 0 && sector + len / 512 <= sectors
}

/// A request by its type: 0 reads and 1 writes what is on the disk, a disk that cannot be written
/// refuses every write, 4 flushes what was written, 8 names the disk in at most 20 bytes, and
/// anything else is not known (2). A transfer that is not on the disk is an error (1).
pub proof fn law_requests_by_their_type(
    b: BlockView,
    kind: u32,
    sector: u64,
    room: nat,
    left: nat,
)
    requires
        b.wf(),
        room <= u32::MAX,
        left <= u32::MAX,
    ensures
        ({
            let t = b.todo(kind, sector, room, left);
            &&& t is Read <==> kind == 0 && on_disk(b.capacity_sectors, sector, room)
            &&& t is Write <==> kind == 1 && !b.read_only && on_disk(
                b.capacity_sectors,
                sector,
                left,
            )
            &&& t is Flush <==> kind == 4 && !b.read_only
            &&& t matches Todo::Finished { status, written } ==> {
                &&& status == 0 <==> kind == 4 || kind == 8
                &&& status == 1 <==> kind == 0 || kind == 1
                &&& status == 2 <==> kind != 0 && kind != 1 && kind != 4 && kind != 8
                &&& written == if kind != 8 {
                    0
                } else if room < 20 {
                    room
                } else {
                    20
                }
            }
        }),
{
}

/// Everything that is done for a request when every step succeeds.
pub open spec fn steps(t: Todo, fuel: nat) -> Seq<Action>
    decreases fuel,
{
    if fuel == 0 || t is Finished {
        Seq::empty()
    } else {
        seq![t.action()] + steps(t.after(true), (fuel - 1) as nat)
    }
}

/// How a request ends when every step succeeds.
pub open spec fn ended(t: Todo, fuel: nat) -> Todo
    decreases fuel,
{
    if fuel == 0 || t is Finished {
        t
    } else {
        ended(t.after(true), (fuel - 1) as nat)
    }
}

/// Whether these steps go over the bytes from `from` to `to`, in order and each once, in reads or in
/// writes of at most 262144 bytes.
pub open spec fn covers(steps: Seq<Action>, write: bool, from: int, to: int) -> bool
    decreases steps.len(),
{
    if steps.len() == 0 {
        from == to
    } else {
        match steps[0] {
            Action::Read { off, n } => !write && off == from && 0 < n <= 262144 && covers(
                steps.skip(1),
                write,
                from + n,
                to,
            ),
            Action::Write { off, n } => write && off == from && 0 < n <= 262144 && covers(
                steps.skip(1),
                write,
                from + n,
                to,
            ),
            _ => false,
        }
    }
}

/// A transfer that nothing goes wrong in goes over its bytes, in order and each once, and ends well:
/// a read with all its bytes written to the guest, a write with none.
pub proof fn law_a_transfer_moves_its_bytes(t: Todo, fuel: nat)
    requires
        t is Read || t is Write,
        t matches Todo::Read { start, len, done } ==> done < len && start + len <= u64::MAX && fuel
            >= len - done,
        t matches Todo::Write { start, len, done } ==> done < len && start + len <= u64::MAX && fuel
            >= len - done,
    ensures
        t matches Todo::Read { start, len, done } ==> {
            &&& covers(steps(t, fuel), false, start + done, start + len)
            &&& ended(t, fuel) == (Todo::Finished { status: 0, written: len })
        },
        t matches Todo::Write { start, len, done } ==> {
            &&& covers(steps(t, fuel), true, start + done, start + len)
            &&& ended(t, fuel) == (Todo::Finished { status: 0, written: 0 })
        },
    decreases fuel,
{
    let next = t.after(true);
    let rest = steps(next, (fuel - 1) as nat);
    assert(steps(t, fuel) == seq![t.action()] + rest);
    assert((seq![t.action()] + rest).skip(1) =~= rest);
    assert((seq![t.action()] + rest)[0] == t.action());
    if next is Finished {
        assert(rest =~= Seq::empty());
        reveal_with_fuel(covers, 2);
        reveal_with_fuel(ended, 2);
    } else {
        law_a_transfer_moves_its_bytes(next, (fuel - 1) as nat);
    }
}

/// A request whose step fails is an error, which says how much the guest was given: of a read what
/// was read before, of anything else nothing.
pub proof fn law_a_failed_step_is_an_error(t: Todo)
    requires
        !(t is Finished),
    ensures
        t.after(false) matches Todo::Finished { status, written } && status == 1 && written == (
        match t {
            Todo::Read { start, len, done } => done,
            _ => 0,
        }),
{
}

/// The name of a disk is given in 20 bytes: as many of its own as fit, then zeros.
pub proof fn law_a_disk_says_its_name(b: BlockView, i: int)
    requires
        0 <= i < 20,
    ensures
        b.id_bytes().len() == 20,
        b.id_bytes()[i] == if i < vstd::utf8::encode_utf8(b.id).len() {
            vstd::utf8::encode_utf8(b.id)[i]
        } else {
            0
        },
{
}

} // verus!
