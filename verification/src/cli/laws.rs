//! What the command line means.

use super::{
    after_pairs, asked_for, boot_config, bytes_of, command_outcome, digits_end, disk_of, disks_of,
    first_wrong, pairs_from, repeated, simple_error, target, u32_of, unit, value_of, CommandView,
    PairView,
};
use crate::config::DiskView;
use crate::control::Request;
use crate::error::VmmErrorView;
use crate::text::laws::{
    law_decimal_reads_back, law_parsing_undoes_writing, law_trimming_leaves_the_rest,
    law_white_space,
};
use crate::text::{begins, dec, find_from, is_digit};
use vstd::prelude::*;

verus! {

proof fn lemma_digits_end(s: Seq<char>, i: int, d: int)
    requires
        0 <= i <= d <= s.len(),
        forall|k: int| 0 <= k < d ==> is_digit(#[trigger] s[k]),
        d < s.len() ==> !is_digit(s[d]),
    ensures
        digits_end(s, i) == d,
    decreases d - i,
{
    if i < d {
        lemma_digits_end(s, i + 1, d);
    }
}

/// What a number with a suffix of letters stands for.
proof fn lemma_bytes(n: nat, suffix: Seq<char>)
    requires
        forall|i: int| 0 <= i < suffix.len() ==> 'A' <= #[trigger] suffix[i] <= 'z',
        forall|i: int| 0 <= i < suffix.len() ==> !crate::text::is_space(#[trigger] suffix[i]),
        n <= u64::MAX,
    ensures
        bytes_of(dec(n) + suffix) == (match unit(suffix) {
            Some(u) => if n * u <= u64::MAX {
                Some((n * u) as u64)
            } else {
                None
            },
            None => None,
        }),
{
    let d = dec(n);
    let t = d + suffix;
    law_decimal_reads_back(n);
    law_white_space(d[0]);
    law_white_space(d.last());
    assert(t[0] == d[0]);
    assert(is_digit(d[0]) && is_digit(d.last()));
    if suffix.len() == 0 {
        assert(t.last() == d.last());
    } else {
        assert(t.last() == suffix.last());
    }
    law_trimming_leaves_the_rest(t);
    assert forall|k: int| 0 <= k < d.len() implies is_digit(#[trigger] t[k]) by {
        assert(is_digit(d[k]));
    }
    lemma_digits_end(t, 0, d.len() as int);
    assert(t.subrange(0, d.len() as int) =~= d);
    assert(t.subrange(d.len() as int, t.len() as int) =~= suffix);
    law_parsing_undoes_writing(n, u64::MAX as nat);
}

/// `n` times `u` bytes, where that fits in 64 bits.
pub open spec fn times(n: nat, u: nat) -> Option<u64> {
    if n * u <= u64::MAX {
        Some((n * u) as u64)
    } else {
        None
    }
}

/// Sizes count in bytes, and each letter in 1024 times the one before it: K, M, G, T, with "iB"
/// behind it or "B" or nothing. A size that does not fit in 64 bits is none.
pub proof fn law_sizes_scale_by_1024(n: nat)
    requires
        n <= u64::MAX,
    ensures
        bytes_of(dec(n)) == times(n, 1),
        bytes_of(dec(n) + seq!['B']) == times(n, 1),
        bytes_of(dec(n) + seq!['K']) == times(n, 1024),
        bytes_of(dec(n) + seq!['k']) == times(n, 1024),
        bytes_of(dec(n) + seq!['M']) == times(n, 1024 * 1024),
        bytes_of(dec(n) + seq!['G']) == times(n, 1024 * 1024 * 1024),
        bytes_of(dec(n) + seq!['T']) == times(n, 1024 * 1024 * 1024 * 1024),
        bytes_of(dec(n) + seq!['K', 'i', 'B']) == times(n, 1024),
        bytes_of(dec(n) + seq!['M', 'i', 'B']) == times(n, 1024 * 1024),
        bytes_of(dec(n) + seq!['G', 'i', 'B']) == times(n, 1024 * 1024 * 1024),
        bytes_of(dec(n) + seq!['T', 'i', 'B']) == times(n, 1024 * 1024 * 1024 * 1024),
        bytes_of(dec(n) + seq!['K', 'B']) == times(n, 1024),
        bytes_of(dec(n) + seq!['M', 'B']) == times(n, 1024 * 1024),
        bytes_of(dec(n) + seq!['G', 'B']) == times(n, 1024 * 1024 * 1024),
        bytes_of(dec(n) + seq!['T', 'B']) == times(n, 1024 * 1024 * 1024 * 1024),
{
    lemma_units();
    lemma_bytes(n, Seq::empty());
    assert(dec(n) + Seq::<char>::empty() =~= dec(n));
    lemma_bytes(n, seq!['B']);
    lemma_bytes(n, seq!['K']);
    lemma_bytes(n, seq!['k']);
    lemma_bytes(n, seq!['M']);
    lemma_bytes(n, seq!['G']);
    lemma_bytes(n, seq!['T']);
    lemma_bytes(n, seq!['K', 'i', 'B']);
    lemma_bytes(n, seq!['M', 'i', 'B']);
    lemma_bytes(n, seq!['G', 'i', 'B']);
    lemma_bytes(n, seq!['T', 'i', 'B']);
    lemma_bytes(n, seq!['K', 'B']);
    lemma_bytes(n, seq!['M', 'B']);
    lemma_bytes(n, seq!['G', 'B']);
    lemma_bytes(n, seq!['T', 'B']);
}

proof fn lemma_units()
    ensures
        unit(Seq::empty()) == Some(1u64),
        unit(seq!['B']) == Some(1u64),
        unit(seq!['K']) == Some(0x400u64),
        unit(seq!['k']) == Some(0x400u64),
        unit(seq!['M']) == Some(0x10_0000u64),
        unit(seq!['G']) == Some(0x4000_0000u64),
        unit(seq!['T']) == Some(0x100_0000_0000u64),
        unit(seq!['K', 'i', 'B']) == Some(0x400u64),
        unit(seq!['M', 'i', 'B']) == Some(0x10_0000u64),
        unit(seq!['G', 'i', 'B']) == Some(0x4000_0000u64),
        unit(seq!['T', 'i', 'B']) == Some(0x100_0000_0000u64),
        unit(seq!['K', 'B']) == Some(0x400u64),
        unit(seq!['M', 'B']) == Some(0x10_0000u64),
        unit(seq!['G', 'B']) == Some(0x4000_0000u64),
        unit(seq!['T', 'B']) == Some(0x100_0000_0000u64),
{
    reveal_strlit("");
    reveal_strlit("B");
    reveal_strlit("K");
    reveal_strlit("KiB");
    reveal_strlit("KB");
    reveal_strlit("k");
    reveal_strlit("M");
    reveal_strlit("MiB");
    reveal_strlit("MB");
    reveal_strlit("G");
    reveal_strlit("GiB");
    reveal_strlit("GB");
    reveal_strlit("T");
    reveal_strlit("TiB");
    reveal_strlit("TB");
    assert(""@ =~= Seq::empty());
    assert("B"@ =~= seq!['B']);
    assert("K"@ =~= seq!['K']);
    assert("k"@ =~= seq!['k']);
    assert("M"@ =~= seq!['M']);
    assert("G"@ =~= seq!['G']);
    assert("T"@ =~= seq!['T']);
    assert("KiB"@ =~= seq!['K', 'i', 'B']);
    assert("MiB"@ =~= seq!['M', 'i', 'B']);
    assert("GiB"@ =~= seq!['G', 'i', 'B']);
    assert("TiB"@ =~= seq!['T', 'i', 'B']);
    assert("KB"@ =~= seq!['K', 'B']);
    assert("MB"@ =~= seq!['M', 'B']);
    assert("GB"@ =~= seq!['G', 'B']);
    assert("TB"@ =~= seq!['T', 'B']);
    assert(seq!['K', 'i', 'B'][0] == 'K');
    assert(seq!['M', 'i', 'B'][0] == 'M');
    assert(seq!['G', 'i', 'B'][0] == 'G');
    assert(seq!['T', 'i', 'B'][0] == 'T');
    assert(seq!['K', 'B'][0] == 'K');
    assert(seq!['M', 'B'][0] == 'M');
    assert(seq!['G', 'B'][0] == 'G');
    assert(seq!['T', 'B'][0] == 'T');
    assert(seq!['B'][0] == 'B');
    assert(seq!['K'][0] == 'K');
    assert(seq!['k'][0] == 'k');
    assert(seq!['M'][0] == 'M');
    assert(seq!['G'][0] == 'G');
    assert(seq!['T'][0] == 'T');
}

/// A whole number in decimal is read as that number, if it has 32 bits.
pub proof fn law_numbers_are_decimal(n: nat)
    ensures
        u32_of(dec(n)) == if n <= u32::MAX {
            Some(n as u32)
        } else {
            None
        },
{
    law_decimal_reads_back(n);
    law_white_space(dec(n)[0]);
    law_white_space(dec(n).last());
    assert(is_digit(dec(n)[0]) && is_digit(dec(n).last()));
    law_trimming_leaves_the_rest(dec(n));
    law_parsing_undoes_writing(n, u32::MAX as nat);
}

/// A flag that is given has the value that it was last given, and one that is not has none.
pub proof fn law_a_flag_has_its_value(p: Seq<PairView>, i: int, flag: Seq<char>)
    ensures
        0 <= i < p.len() && (forall|j: int| i < j < p.len() ==> (#[trigger] p[j]).0 != p[i].0)
            ==> value_of(p, p[i].0) == Some(p[i].1),
        (forall|j: int| 0 <= j < p.len() ==> (#[trigger] p[j]).0 != flag) <==> value_of(p, flag)
            is None,
    decreases p.len(),
{
    if p.len() > 0 {
        let q = p.drop_last();
        law_a_flag_has_its_value(q, i, flag);
        assert(p[p.len() - 1] == p.last());
        assert(forall|j: int| 0 <= j < q.len() ==> q[j] == p[j]);
        if value_of(p, flag) is None {
            assert forall|j: int| 0 <= j < p.len() implies (#[trigger] p[j]).0 != flag by {
                if j < q.len() {
                    assert(q[j].0 != flag);
                }
            }
        }
        if forall|j: int| 0 <= j < p.len() ==> (#[trigger] p[j]).0 != flag {
            assert forall|j: int| 0 <= j < q.len() implies (#[trigger] q[j]).0 != flag by {
                assert(p[j].0 != flag);
            }
        }
        if 0 <= i < p.len() && forall|j: int| i < j < p.len() ==> (#[trigger] p[j]).0 != p[i].0 {
            if i < q.len() {
                assert forall|j: int| i < j < q.len() implies (#[trigger] q[j]).0 != q[i].0 by {
                    assert(p[j].0 != p[i].0);
                }
            }
        }
    }
}

proof fn lemma_pairs_shift(a: Seq<Seq<char>>, b: Seq<Seq<char>>, i: int, k: int)
    requires
        0 <= i <= a.len(),
        0 <= k,
        a.len() + k == b.len(),
        forall|j: int| i <= j < a.len() ==> #[trigger] a[j] == b[j + k],
    ensures
        pairs_from(a, i) == pairs_from(b, i + k),
    decreases a.len() - i,
{
    if i < a.len() {
        assert(a[i] == b[i + k]);
        lemma_pairs_shift(a, b, i + 1, k);
        if i + 1 < a.len() {
            assert(a[i + 1] == b[i + 1 + k]);
            lemma_pairs_shift(a, b, i + 2, k);
        }
    }
}

proof fn lemma_find(s: Seq<char>, c: char, i: int, k: int)
    requires
        0 <= i <= k <= s.len(),
        forall|j: int| i <= j < k ==> #[trigger] s[j] != c,
        k < s.len() ==> s[k] == c,
    ensures
        find_from(s, c, i) == k,
    decreases k - i,
{
    if i < k {
        lemma_find(s, c, i + 1, k);
    }
}

/// A flag and its value may be two arguments, or one with `=` between them: it is the same.
pub proof fn law_flags_take_values_either_way(
    flag: Seq<char>,
    value: Seq<char>,
    rest: Seq<Seq<char>>,
)
    requires
        begins(flag, seq!['-', '-']),
        forall|j: int| 0 <= j < flag.len() ==> #[trigger] flag[j] != '=',
    ensures
        pairs_from(seq![flag + seq!['='] + value] + rest, 0) == pairs_from(
            seq![flag, value] + rest,
            0,
        ),
        pairs_from(seq![flag, value] + rest, 0) == after_pairs(
            seq![(flag, value)],
            pairs_from(rest, 0),
        ),
{
    reveal_strlit("--");
    assert("--"@ =~= seq!['-', '-']);
    let one = flag + seq!['='] + value;
    let a = seq![one] + rest;
    let b = seq![flag, value] + rest;
    lemma_pairs_shift(rest, a, 0, 1);
    lemma_pairs_shift(rest, b, 0, 2);
    lemma_find(one, '=', 0, flag.len() as int);
    lemma_find(flag, '=', 0, flag.len() as int);
    assert(one.subrange(0, flag.len() as int) =~= flag);
    assert(one.subrange((flag.len() + 1) as int, one.len() as int) =~= value);
    assert(one.subrange(0, 2) =~= flag.subrange(0, 2));
    assert(a[0] == one);
    assert(b[0] == flag && b[1] == value);
}

/// A disk is its path, with `:ro` behind it one that is only read, and with `:rw` or nothing one that
/// can be written.
pub proof fn law_disks_are_paths(path: Seq<char>)
    ensures
        disk_of(path + seq![':', 'r', 'o']) == (DiskView { path, read_only: true }),
        disk_of(path + seq![':', 'r', 'w']) == (DiskView { path, read_only: false }),
        (path.len() < 3 || path[path.len() - 3] != ':') ==> disk_of(path) == (DiskView {
            path,
            read_only: false,
        }),
{
    reveal_strlit(":ro");
    reveal_strlit(":rw");
    let o = seq![':', 'r', 'o'];
    let w = seq![':', 'r', 'w'];
    assert(":ro"@ =~= o);
    assert(":rw"@ =~= w);
    let a = path + o;
    let b = path + w;
    assert(a.subrange(a.len() - 3, a.len() as int) =~= o);
    assert(a.subrange(0, a.len() - 3) =~= path);
    assert(b.subrange(b.len() - 3, b.len() as int) =~= w);
    assert(b.subrange(0, b.len() - 3) =~= path);
    assert(w[2] == 'w' && o[2] == 'o');
    if path.len() >= 3 {
        let end = path.subrange(path.len() - 3, path.len() as int);
        assert(end[0] == path[path.len() - 3]);
        assert(o[0] == ':' && w[0] == ':');
    }
}

/// The disks are those that were given, in their order.
pub proof fn law_every_disk_is_attached(p: Seq<PairView>, v: Seq<char>)
    ensures
        disks_of(p.push((seq!['-', '-', 'd', 'i', 's', 'k'], v))) == disks_of(p).push(disk_of(v)),
        disks_of(Seq::empty()) == Seq::<DiskView>::empty(),
{
    reveal_strlit("--disk");
    let flag = seq!['-', '-', 'd', 'i', 's', 'k'];
    assert("--disk"@ =~= flag);
    let q = p.push((flag, v));
    assert(q.drop_last() =~= p);
    assert(q.last() == (flag, v));
}

/// A guest is booted with what its flags say. Where the largest memory or number of vCPUs is not
/// given, it is the one that the guest starts with.
pub proof fn law_a_guest_is_what_its_flags_say(p: Seq<PairView>, tmp: Seq<char>)
    ensures
        boot_config(p, tmp) matches Ok(c) ==> {
            &&& value_of(p, "--image"@) == Some(c.image)
            &&& bytes_of(value_of(p, "--memory"@)->0) == Some(c.memory_bytes)
            &&& u32_of(value_of(p, "--cpus"@)->0) == Some(c.cpus)
            &&& u32_of(value_of(p, "--vsock"@)->0) == Some(c.cid)
            &&& value_of(p, "--memory-max"@) is None ==> c.memory_max_bytes == c.memory_bytes
            &&& value_of(p, "--cpus-max"@) is None ==> c.cpus_max == c.cpus
            &&& value_of(p, "--memory-max"@) matches Some(v) ==> (bytes_of(v) matches Some(n)
                ==> c.memory_max_bytes == n)
            &&& value_of(p, "--cpus-max"@) matches Some(v) ==> (u32_of(v) matches Some(n)
                ==> c.cpus_max == n)
            &&& value_of(p, "--vsock-uds"@) matches Some(u) ==> c.uds_path == u
            &&& value_of(p, "--control"@) matches Some(u) ==> c.control_socket == u
        },
        boot_config(p, tmp) is Ok <==> value_of(p, "--image"@) is Some && (value_of(p, "--memory"@)
            matches Some(v) && bytes_of(v) is Some) && (value_of(p, "--cpus"@) matches Some(v)
            && u32_of(v) is Some) && (value_of(p, "--vsock"@) matches Some(v) && u32_of(v) is Some),
{
}

/// Asking for the status or for the guest to stop, on a control socket, is that request to that
/// socket.
pub proof fn law_requests_go_to_the_socket(
    socket: Seq<char>,
    tmp: Seq<char>,
    got: std::result::Result<CommandView, VmmErrorView>,
)
    ensures
        command_outcome(seq!["status"@, "--control"@, socket], tmp, got) ==> got == Ok::<
            CommandView,
            VmmErrorView,
        >(CommandView::Control { socket, request: Request::Status }),
        command_outcome(seq!["stop"@, "--control"@, socket], tmp, got) ==> got == Ok::<
            CommandView,
            VmmErrorView,
        >(CommandView::Control { socket, request: Request::Stop }),
{
    reveal_strlit("status");
    reveal_strlit("stop");
    reveal_strlit("boot");
    reveal_strlit("resize");
    reveal_strlit("--control");
    reveal_strlit("--");
    assert("--control"@.subrange(0, 2) =~= "--"@);
    assert("status"@.len() == 6 && "stop"@.len() == 4 && "boot"@.len() == 4 && "resize"@.len()
        == 6);
    assert("status"@[0] == 's' && "stop"@[0] == 's' && "boot"@[0] == 'b' && "resize"@[0] == 'r');
    let flag = "--control"@;
    lemma_find(flag, '=', 0, flag.len() as int);
    let a = seq!["status"@, flag, socket];
    let b = seq!["stop"@, flag, socket];
    lemma_one_pair(a, flag, socket);
    lemma_one_pair(b, flag, socket);
    let p = seq![(flag, socket)];
    assert(p.last() == (flag, socket));
    assert(!repeated(p, 0));
    if command_outcome(a, tmp, got) {
        let at = |i: int| (|p: Seq<PairView>, i: int| simple_error(p, i, "status"@))(p, i);
        assert(forall|i: int| !first_wrong(at, 1, i));
    }
    if command_outcome(b, tmp, got) {
        let at = |i: int| (|p: Seq<PairView>, i: int| simple_error(p, i, "stop"@))(p, i);
        assert(forall|i: int| !first_wrong(at, 1, i));
    }
}

proof fn lemma_one_pair(a: Seq<Seq<char>>, flag: Seq<char>, value: Seq<char>)
    requires
        a.len() == 3,
        a[1] == flag,
        a[2] == value,
        begins(flag, "--"@),
        find_from(flag, '=', 0) == flag.len(),
    ensures
        pairs_from(a, 1) == Ok::<Seq<PairView>, VmmErrorView>(seq![(flag, value)]),
{
    assert(pairs_from(a, 3) == Ok::<Seq<PairView>, VmmErrorView>(Seq::empty()));
    assert(seq![(flag, value)] + Seq::<PairView>::empty() =~= seq![(flag, value)]);
}

/// A resize asks for the memory or the vCPUs that it was given last.
pub proof fn law_a_resize_asks_for_what_it_is_given(
    p: Seq<PairView>,
    v: Seq<char>,
    tmp: Seq<char>,
)
    ensures
        bytes_of(v) matches Some(n) ==> asked_for(p.push(("--memory"@, v))) == Some(
            Request::ResizeMemory { bytes: n },
        ),
        u32_of(v) matches Some(n) ==> asked_for(p.push(("--cpus"@, v))) == Some(
            Request::ResizeCpus { cpus: n },
        ),
        target(p.push(("--control"@, v)), tmp) == Some(v),
        asked_for(p.push(("--control"@, v))) == asked_for(p),
        target(p.push(("--memory"@, v)), tmp) == target(p, tmp),
        target(p.push(("--cpus"@, v)), tmp) == target(p, tmp),
{
    reveal_strlit("--memory");
    reveal_strlit("--cpus");
    reveal_strlit("--control");
    reveal_strlit("--vsock");
    assert("--memory"@.len() == 8 && "--cpus"@.len() == 6 && "--control"@.len() == 9
        && "--vsock"@.len() == 7);
    assert(p.push(("--memory"@, v)).drop_last() =~= p);
    assert(p.push(("--cpus"@, v)).drop_last() =~= p);
    assert(p.push(("--control"@, v)).drop_last() =~= p);
}

} // verus!
