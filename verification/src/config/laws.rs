//! Which configurations are accepted, and what is said of the others.

use super::{byte_len, control_path, vsock_path, HostFacts, VmView};
use crate::paths::{joined, same_components};
use crate::text::dec;
use crate::text::laws::law_decimals_tell_numbers_apart;
use vstd::prelude::*;

verus! {

/// Whether memory is of a size that a guest can have: whole blocks of 2 MiB, 256 MiB at least and
/// 1 TiB at most.
pub open spec fn memory_size(bytes: u64) -> bool {
    bytes % 0x20_0000 == 0 && 256 * 0x10_0000 <= bytes <= 0x100_0000_0000
}

/// A configuration that is accepted has memory of a size that a guest can have, and no less of it
/// later; one to 64 vCPUs, and no fewer later; an address that is not reserved; at most 15 disks, all
/// of them usable; and two socket paths that are not too long, and differ.
pub proof fn law_what_is_accepted(c: VmView, facts: HostFacts)
    requires
        facts.disks@.len() == c.disks.len(),
        c.refusal(facts) is None,
    ensures
        memory_size(c.memory_bytes) && memory_size(c.memory_max_bytes),
        c.memory_bytes <= c.memory_max_bytes,
        1 <= c.cpus <= c.cpus_max <= 64,
        3 <= c.cid <= 4294967294,
        c.disks.len() <= 15,
        forall|i: int| 0 <= i < c.disks.len() ==> (#[trigger] facts.disks@[i]) is Usable,
        1 <= byte_len(c.uds_path) <= 92,
        1 <= byte_len(c.control_socket) <= 103,
        !same_components(c.uds_path, c.control_socket),
{
    super::law_refusals_are_the_rules(c, facts);
    lemma_fields();
}

/// Nothing else is asked of the numbers: where they are within these bounds, what is refused is a
/// disk or a socket.
pub proof fn law_what_else_is_refused(c: VmView, facts: HostFacts)
    requires
        facts.disks@.len() == c.disks.len(),
        memory_size(c.memory_bytes) && memory_size(c.memory_max_bytes),
        c.memory_bytes <= c.memory_max_bytes,
        1 <= c.cpus <= c.cpus_max <= 64,
        3 <= c.cid <= 4294967294,
        c.disks.len() <= 15,
    ensures
        c.refusal(facts) matches Some(why) ==> why.field == "--disk"@ || why.field
            == "--vsock-uds"@ || why.field == "--control"@,
{
    lemma_disks_field(c, facts, 0);
}

proof fn lemma_disks_field(c: VmView, facts: HostFacts, i: int)
    requires
        0 <= i <= c.disks.len(),
    ensures
        super::disks_refusal(c.disks, facts.disks@, i) matches Some(why) ==> why.field == "--disk"@,
        super::disks_refusal(c.disks, facts.disks@, i) is Some <==> exists|k: int|
            i <= k < c.disks.len() && !((#[trigger] facts.disks@[k]) is Usable),
    decreases c.disks.len() - i,
{
    if i < c.disks.len() {
        lemma_disks_field(c, facts, i + 1);
        if !(facts.disks@[i] is Usable) {
            assert(super::disk_refusal(c.disks[i], facts.disks@[i]) is Some);
        }
    }
}

proof fn lemma_fields()
    ensures
        "--memory"@.len() == 8,
        "--memory-max"@.len() == 12,
        "--cpus"@.len() == 6,
        "--cpus-max"@.len() == 10,
        "--vsock"@.len() == 7,
        "--vsock-uds"@.len() == 11,
        "--disk"@.len() == 6,
        "--control"@.len() == 9,
        "--disk"@[2] == 'd',
        "--cpus"@[2] == 'c',
{
    reveal_strlit("--memory");
    reveal_strlit("--memory-max");
    reveal_strlit("--cpus");
    reveal_strlit("--cpus-max");
    reveal_strlit("--vsock");
    reveal_strlit("--vsock-uds");
    reveal_strlit("--disk");
    reveal_strlit("--control");
}

/// A refusal names a flag that is at fault.
pub proof fn law_a_refusal_names_what_is_wrong(c: VmView, facts: HostFacts)
    requires
        facts.disks@.len() == c.disks.len(),
        c.refusal(facts) is Some,
    ensures
        ({
            let field = c.refusal(facts)->0.field;
            &&& field == "--memory"@ ==> c.memory_bytes < 268435456 || c.memory_bytes % 2097152 != 0
            &&& field == "--memory-max"@ ==> c.memory_max_bytes % 2097152 != 0 || c.memory_max_bytes
                < c.memory_bytes || c.memory_max_bytes > 1099511627776
            &&& field == "--cpus"@ ==> c.cpus == 0
            &&& field == "--cpus-max"@ ==> c.cpus_max < c.cpus || c.cpus_max > 64
            &&& field == "--vsock"@ ==> c.cid < 3 || c.cid == u32::MAX
            &&& field == "--disk"@ ==> c.disks.len() > 15 || exists|k: int|
                0 <= k < c.disks.len() && !((#[trigger] facts.disks@[k]) is Usable)
            &&& field == "--vsock-uds"@ ==> byte_len(c.uds_path) == 0 || byte_len(c.uds_path) > 92
                || !facts.uds_dir_exists
            &&& field == "--control"@ ==> byte_len(c.control_socket) == 0 || byte_len(
                c.control_socket,
            ) > 103 || !facts.control_dir_exists || same_components(c.uds_path, c.control_socket)
            &&& field == "--memory"@ || field == "--memory-max"@ || field == "--cpus"@ || field
                == "--cpus-max"@ || field == "--vsock"@ || field == "--disk"@ || field
                == "--vsock-uds"@ || field == "--control"@
        }),
{
    lemma_fields();
    lemma_disks_field(c, facts, 0);
}

/// Guests of different addresses do not share a socket by default, and a guest's two sockets differ.
pub proof fn law_default_sockets_are_apart(tmp: Seq<char>, a: u32, b: u32)
    ensures
        vsock_path(tmp, a) == vsock_path(tmp, b) ==> a == b,
        control_path(tmp, a) == control_path(tmp, b) ==> a == b,
        vsock_path(tmp, a) != control_path(tmp, b),
{
    reveal_strlit("moruna-vmm-");
    reveal_strlit(".vsock");
    reveal_strlit(".ctl");
    let head = "moruna-vmm-"@;
    let da = dec(a as nat);
    let db = dec(b as nat);
    if vsock_path(tmp, a) == vsock_path(tmp, b) {
        lemma_joined(tmp, head + da + ".vsock"@, head + db + ".vsock"@);
        lemma_middle(head, da, db, ".vsock"@);
        law_decimals_tell_numbers_apart(a as nat, b as nat);
    }
    if control_path(tmp, a) == control_path(tmp, b) {
        lemma_joined(tmp, head + da + ".ctl"@, head + db + ".ctl"@);
        lemma_middle(head, da, db, ".ctl"@);
        law_decimals_tell_numbers_apart(a as nat, b as nat);
    }
    if vsock_path(tmp, a) == control_path(tmp, b) {
        let x = head + da + ".vsock"@;
        let y = head + db + ".ctl"@;
        lemma_joined(tmp, x, y);
        assert(x.last() == 'k');
        assert(y.last() == 'l');
    }
}

proof fn lemma_joined(dir: Seq<char>, x: Seq<char>, y: Seq<char>)
    requires
        joined(dir, x) == joined(dir, y),
    ensures
        x == y,
{
    let head = if dir.len() == 0 || dir.last() == '/' {
        dir
    } else {
        dir + "/"@
    };
    assert(joined(dir, x) == head + x);
    assert(joined(dir, y) == head + y);
    assert((head + x).skip(head.len() as int) =~= x);
    assert((head + y).skip(head.len() as int) =~= y);
}

proof fn lemma_middle(head: Seq<char>, x: Seq<char>, y: Seq<char>, end: Seq<char>)
    requires
        head + x + end == head + y + end,
    ensures
        x == y,
{
    let a = head + x + end;
    let b = head + y + end;
    assert(a.len() == head.len() + x.len() + end.len());
    assert(b.len() == head.len() + y.len() + end.len());
    assert(a.subrange(head.len() as int, (head.len() + x.len()) as int) =~= x);
    assert(b.subrange(head.len() as int, (head.len() + y.len()) as int) =~= y);
}

/// A default socket is in the directory that it is to be in, named by the guest's address.
pub proof fn law_default_sockets_are_found(tmp: Seq<char>, cid: u32)
    requires
        tmp.len() > 0,
        tmp.last() != '/',
    ensures
        vsock_path(tmp, cid) == tmp + seq!['/'] + "moruna-vmm-"@ + dec(cid as nat) + ".vsock"@,
        control_path(tmp, cid) == tmp + seq!['/'] + "moruna-vmm-"@ + dec(cid as nat) + ".ctl"@,
{
    reveal_strlit("/");
    assert("/"@ =~= seq!['/']);
    assert(vsock_path(tmp, cid) =~= tmp + seq!['/'] + "moruna-vmm-"@ + dec(cid as nat) + ".vsock"@);
    assert(control_path(tmp, cid) =~= tmp + seq!['/'] + "moruna-vmm-"@ + dec(cid as nat) + ".ctl"@);
}

} // verus!
