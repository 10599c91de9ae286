//! The command line.
//!
//! ```text
//! moruna-vmm boot   --image <dir-or-oci> [--disk <path>[:ro|:rw]]... --memory <bytes>
//!                   [--memory-max <bytes>] --cpus <n> [--cpus-max <n>] --vsock <cid>
//!                   [--vsock-uds <path>] [--control <path>]
//! moruna-vmm resize (--control <path> | --vsock <cid>) (--memory <bytes> | --cpus <n>)
//! moruna-vmm status (--control <path> | --vsock <cid>)
//! moruna-vmm stop   (--control <path> | --vsock <cid>)
//! ```

pub mod laws;

use crate::config::{control_path, default_control_path, default_vsock_path, disk_views,
    vsock_path, DiskConfig, DiskView, VmConfig, VmView, VsockConfig};
use crate::control::Request;
use crate::error::{Result, VmmError, VmmErrorView};
use crate::text::{begins, cat2, cat3, cat4, chars_of, debug_text, ends, find_from, is_digit,
    parse_number, parsed, quoted, same, split_once, strip_prefix, strip_suffix, text_of, trim,
    trimmed};
use vstd::prelude::*;
use vstd::string::*;

verus! {

/// What the command line asks for.
#[derive(Debug, PartialEq, Eq)]
pub enum Command {
    /// Boot one guest and block until it exits.
    Boot(VmConfig),
    /// Send one request to a running monitor's control socket.
    Control {
        /// The control socket.
        socket: String,
        /// The request.
        request: Request,
    },
    /// Print usage and exit 0.
    Help,
    /// Print the version and exit 0.
    Version,
}

/// A [`Command`] with its texts as character sequences.
#[verifier::ext_equal]
pub enum CommandView {
    Boot(VmView),
    Control { socket: Seq<char>, request: Request },
    Help,
    Version,
}

impl View for Command {
    type V = CommandView;

    open spec fn view(&self) -> CommandView {
        match *self {
            Command::Boot(c) => CommandView::Boot(c@),
            Command::Control { socket, request } => CommandView::Control {
                socket: socket@,
                request,
            },
            Command::Help => CommandView::Help,
            Command::Version => CommandView::Version,
        }
    }
}

/// The usage text printed by `--help` and after a parse error.
pub const USAGE: &'static str = "usage:
  moruna-vmm boot   --image <dir-or-oci> [--disk <path>[:ro|:rw]]... --memory <bytes>
                    [--memory-max <bytes>] --cpus <n> [--cpus-max <n>] --vsock <cid>
                    [--vsock-uds <path>] [--control <path>]
  moruna-vmm resize (--control <path> | --vsock <cid>) (--memory <bytes> | --cpus <n>)
  moruna-vmm status (--control <path> | --vsock <cid>)
  moruna-vmm stop   (--control <path> | --vsock <cid>)
bytes accept a K, M, G or T suffix (binary: 1G = 1073741824), with or without \"iB\".
exit: the guest's code; 2 bad configuration or no /dev/kvm; 6 guest kernel panic;
      7 guest stopped without reporting a code; 8 monitor or hypervisor failure.";

/// A flag and its value.
pub type Pair = (String, String);

/// A flag and its value as character sequences.
pub type PairView = (Seq<char>, Seq<char>);

/// The pairs as character sequences.
pub open spec fn pair_views(p: Seq<Pair>) -> Seq<PairView> {
    Seq::new(p.len(), |i: int| (p[i].0@, p[i].1@))
}

/// The arguments as character sequences.
pub open spec fn arg_views(a: Seq<String>) -> Seq<Seq<char>> {
    Seq::new(a.len(), |i: int| a[i]@)
}

/// An error about the arguments as a whole.
pub open spec fn args_error(msg: Seq<char>) -> VmmErrorView {
    VmmErrorView::Config { field: "arguments"@, msg }
}

/// `r` with `head` in front of what it gives.
pub open spec fn after_pairs(
    head: Seq<PairView>,
    r: std::result::Result<Seq<PairView>, VmmErrorView>,
) -> std::result::Result<Seq<PairView>, VmmErrorView> {
    match r {
        Ok(v) => Ok(head + v),
        Err(e) => Err(e),
    }
}

/// The flag/value pairs of the arguments from the `i`th on, in order: `--flag value` or
/// `--flag=value`.
pub open spec fn pairs_from(a: Seq<Seq<char>>, i: int) -> std::result::Result<
    Seq<PairView>,
    VmmErrorView,
>
    decreases a.len() - i,
{
    if i < 0 || i >= a.len() {
        Ok(Seq::empty())
    } else {
        let flag = a[i];
        let k = find_from(flag, '=', 0);
        if !begins(flag, "--"@) {
            Err(
                args_error(
                    "unexpected "@ + debug_text(flag)
                        + "; every argument is a --flag with a value"@,
                ),
            )
        } else if k < flag.len() {
            after_pairs(
                seq![(flag.subrange(0, k), flag.subrange(k + 1, flag.len() as int))],
                pairs_from(a, i + 1),
            )
        } else if i + 1 >= a.len() {
            Err(args_error(flag + " needs a value"@))
        } else {
            after_pairs(seq![(flag, a[i + 1])], pairs_from(a, i + 2))
        }
    }
}

/// Flag/value pairs, in order; every flag takes exactly one value.
fn pairs(args: &Vec<String>, from: usize) -> (r: Result<Vec<Pair>>)
    requires
        from <= args@.len(),
    ensures
        match r {
            Ok(v) => pairs_from(arg_views(args@), from as int) == Ok::<
                Seq<PairView>,
                VmmErrorView,
            >(pair_views(v@)),
            Err(e) => pairs_from(arg_views(args@), from as int) == Err::<
                Seq<PairView>,
                VmmErrorView,
            >(e@),
        },
{
    let ghost a = arg_views(args@);
    let ghost all = pairs_from(a, from as int);
    let mut out: Vec<Pair> = Vec::new();
    let mut i: usize = from;
    assert(pair_views(out@) =~= Seq::<PairView>::empty());
    assert(all is Ok ==> Seq::<PairView>::empty() + all->Ok_0 =~= all->Ok_0);
    assert(after_pairs(pair_views(out@), pairs_from(a, i as int)) == all);
    while i < args.len()
        invariant
            i <= args@.len(),
            a == arg_views(args@),
            all == pairs_from(a, from as int),
            after_pairs(pair_views(out@), pairs_from(a, i as int)) == all,
        decreases args@.len() - i,
    {
        let flag = &args[i];
        let ghost head = pair_views(out@);
        assert(a[i as int] == flag@);
        if strip_prefix(flag, "--").is_none() {
            let q = quoted(flag);
            let msg = cat3("unexpected ", &q, "; every argument is a --flag with a value");
            return Err(VmmError::config("arguments", &msg));
        }
        match split_once(flag, '=') {
            Some((n, v)) => {
                let ghost p = (n@, v@);
                out.push((n, v));
                proof {
                    assert(pair_views(out@) =~= head.push(p));
                    let rest = pairs_from(a, i + 1);
                    if rest is Ok {
                        assert(head + (seq![p] + rest->Ok_0) =~= head.push(p) + rest->Ok_0);
                    }
                }
                i += 1;
            },
            None => {
                if i + 1 >= args.len() {
                    let msg = cat2(flag, " needs a value");
                    return Err(VmmError::config("arguments", &msg));
                }
                let ghost p = (flag@, a[i + 1]);
                out.push((flag.clone(), args[i + 1].clone()));
                proof {
                    assert(pair_views(out@) =~= head.push(p));
                    let rest = pairs_from(a, i + 2);
                    if rest is Ok {
                        assert(head + (seq![p] + rest->Ok_0) =~= head.push(p) + rest->Ok_0);
                    }
                }
                i += 2;
            },
        }
    }
    assert(pair_views(out@) + Seq::<PairView>::empty() =~= pair_views(out@));
    Ok(out)
}

/// Whether the flag of pair `i` was given before.
pub open spec fn repeated(p: Seq<PairView>, i: int) -> bool {
    exists|j: int| 0 <= j < i && (#[trigger] p[j]).0 == p[i].0
}

/// The error of a flag given twice.
pub open spec fn repeated_error(flag: Seq<char>) -> VmmErrorView {
    args_error(flag + " given twice"@)
}

/// Refuse the flag of pair `i` if it was given before.
fn once(p: &Vec<Pair>, i: usize) -> (r: Result<()>)
    requires
        i < p@.len(),
    ensures
        r is Ok <==> !repeated(pair_views(p@), i as int),
        r matches Err(e) ==> e@ == repeated_error(p@[i as int].0@),
{
    let ghost v = pair_views(p@);
    let mut j: usize = 0;
    while j < i
        invariant
            j <= i < p@.len(),
            v == pair_views(p@),
            forall|k: int| 0 <= k < j ==> (#[trigger] v[k]).0 != v[i as int].0,
        decreases i - j,
    {
        if same(&p[j].0, &p[i].0) {
            assert(v[j as int].0 == v[i as int].0);
            let msg = cat2(&p[i].0, " given twice");
            return Err(VmmError::config("arguments", &msg));
        }
        j += 1;
    }
    Ok(())
}

/// The last value given for `flag`.
pub open spec fn value_of(p: Seq<PairView>, flag: Seq<char>) -> Option<Seq<char>>
    decreases p.len(),
{
    if p.len() == 0 {
        None
    } else if p.last().0 == flag {
        Some(p.last().1)
    } else {
        value_of(p.drop_last(), flag)
    }
}

/// Every value given for `--disk`, as a disk, in order.
pub open spec fn disks_of(p: Seq<PairView>) -> Seq<DiskView>
    decreases p.len(),
{
    if p.len() == 0 {
        Seq::empty()
    } else if p.last().0 == "--disk"@ {
        disks_of(p.drop_last()).push(disk_of(p.last().1))
    } else {
        disks_of(p.drop_last())
    }
}

/// The disk a value names: `path`, `path:ro` or `path:rw`; the default is read-write.
pub open spec fn disk_of(v: Seq<char>) -> DiskView {
    if ends(v, ":ro"@) {
        DiskView { path: v.subrange(0, v.len() - 3), read_only: true }
    } else if ends(v, ":rw"@) {
        DiskView { path: v.subrange(0, v.len() - 3), read_only: false }
    } else {
        DiskView { path: v, read_only: false }
    }
}

/// What is wrong with a disk's value.
pub open spec fn disk_error(v: Seq<char>) -> Option<VmmErrorView> {
    if disk_of(v).path.len() == 0 {
        Some(
            VmmErrorView::Config { field: "--disk"@, msg: debug_text(v) + " names no path"@ },
        )
    } else {
        None
    }
}

/// `path`, `path:ro` or `path:rw`; the default is read-write.
pub fn parse_disk(v: &str) -> (r: Result<DiskConfig>)
    ensures
        match r {
            Ok(d) => disk_error(v@) is None && d@ == disk_of(v@),
            Err(e) => disk_error(v@) == Some(e@),
        },
{
    proof {
        reveal_strlit(":ro");
        reveal_strlit(":rw");
    }
    let (path, read_only): (String, bool) = match strip_suffix(v, ":ro") {
        Some(p) => (p, true),
        None => match strip_suffix(v, ":rw") {
            Some(p) => (p, false),
            None => (v.to_owned(), false),
        },
    };
    if path.as_str().unicode_len() == 0 {
        let q = quoted(v);
        let msg = cat2(&q, " names no path");
        return Err(VmmError::config("--disk", &msg));
    }
    Ok(DiskConfig { path, read_only })
}

/// How many digits `s` starts with, counting from the `i`th character.
pub open spec fn digits_end(s: Seq<char>, i: int) -> int
    decreases s.len() - i,
{
    if i < 0 || i >= s.len() || !is_digit(s[i]) {
        i
    } else {
        digits_end(s, i + 1)
    }
}

/// What a byte count's suffix multiplies by.
pub open spec fn unit(s: Seq<char>) -> Option<u64> {
    if s == ""@ || s == "B"@ {
        Some(1)
    } else if s == "K"@ || s == "KiB"@ || s == "KB"@ || s == "k"@ {
        Some(0x400)
    } else if s == "M"@ || s == "MiB"@ || s == "MB"@ {
        Some(0x10_0000)
    } else if s == "G"@ || s == "GiB"@ || s == "GB"@ {
        Some(0x4000_0000)
    } else if s == "T"@ || s == "TiB"@ || s == "TB"@ {
        Some(0x100_0000_0000)
    } else {
        None
    }
}

/// The byte count a text spells: digits, optionally followed by `K`, `M`, `G` or `T` (binary
/// multiples), with or without `iB` or `B`, white space around it allowed.
pub open spec fn bytes_of(v: Seq<char>) -> Option<u64> {
    let t = trimmed(v);
    let d = digits_end(t, 0);
    match (parsed(t.subrange(0, d), u64::MAX as nat), unit(t.subrange(d, t.len() as int))) {
        (Some(n), Some(u)) => if n * u <= u64::MAX {
            Some((n * u) as u64)
        } else {
            None
        },
        _ => None,
    }
}

/// Why a text is no byte count.
pub open spec fn bytes_error(field: Seq<char>, v: Seq<char>) -> VmmErrorView {
    let t = trimmed(v);
    let d = digits_end(t, 0);
    let suffix = t.subrange(d, t.len() as int);
    VmmErrorView::Config {
        field,
        msg: if parsed(t.subrange(0, d), u64::MAX as nat) is None {
            debug_text(v) + " is not a byte count"@
        } else if unit(suffix) is None {
            debug_text(v) + " has an unknown suffix "@ + debug_text(suffix)
        } else {
            debug_text(v) + " overflows 64 bits"@
        },
    }
}

fn parse_unit(s: &str) -> (r: Option<u64>)
    ensures
        r == unit(s@),
{
    if same(s, "") || same(s, "B") {
        Some(1)
    } else if same(s, "K") || same(s, "KiB") || same(s, "KB") || same(s, "k") {
        Some(0x400)
    } else if same(s, "M") || same(s, "MiB") || same(s, "MB") {
        Some(0x10_0000)
    } else if same(s, "G") || same(s, "GiB") || same(s, "GB") {
        Some(0x4000_0000)
    } else if same(s, "T") || same(s, "TiB") || same(s, "TB") {
        Some(0x100_0000_0000)
    } else {
        None
    }
}

/// A byte count: digits, optionally followed by `K`, `M`, `G` or `T` (binary multiples), with
/// or without `iB` or `B`.
pub fn parse_bytes(field: &'static str, v: &str) -> (r: Result<u64>)
    ensures
        match r {
            Ok(n) => bytes_of(v@) == Some(n),
            Err(e) => bytes_of(v@) is None && e@ == bytes_error(field@, v@),
        },
{
    let c = chars_of(v);
    let n = c.len();
    let (a, b) = trim(&c, 0, n);
    let ghost t = trimmed(v@);
    assert(c@.subrange(0, n as int) =~= v@);
    assert(t == c@.subrange(a as int, b as int));
    let mut d: usize = a;
    while d < b && c[d] >= '0' && c[d] <= '9'
        invariant
            a <= d <= b <= c@.len(),
            t == c@.subrange(a as int, b as int),
            digits_end(t, 0) == digits_end(t, d - a),
        decreases b - d,
    {
        assert(t[d - a] == c@[d as int]);
        d += 1;
    }
    assert(digits_end(t, 0) == d - a) by {
        if d < b {
            assert(t[d - a] == c@[d as int]);
        }
    }
    assert(t.subrange(0, d - a) =~= c@.subrange(a as int, d as int));
    assert(t.subrange(d - a, t.len() as int) =~= c@.subrange(d as int, b as int));
    let num: u64 = match parse_number(&c, a, d, u64::MAX) {
        Some(x) => x,
        None => {
            let q = quoted(v);
            let msg = cat2(&q, " is not a byte count");
            return Err(VmmError::config(field, &msg));
        },
    };
    let suffix = text_of(&c, d, b);
    match parse_unit(&suffix) {
        None => {
            let q = quoted(v);
            let s = quoted(&suffix);
            let msg = cat3(&q, " has an unknown suffix ", &s);
            Err(VmmError::config(field, &msg))
        },
        Some(u) => match num.checked_mul(u) {
            Some(x) => Ok(x),
            None => {
                let q = quoted(v);
                let msg = cat2(&q, " overflows 64 bits");
                Err(VmmError::config(field, &msg))
            },
        },
    }
}

/// The whole number a text spells, white space around it allowed.
pub open spec fn u32_of(v: Seq<char>) -> Option<u32> {
    match parsed(trimmed(v), u32::MAX as nat) {
        Some(n) => Some(n as u32),
        None => None,
    }
}

/// Why a text is no whole number.
pub open spec fn u32_error(field: Seq<char>, v: Seq<char>) -> VmmErrorView {
    VmmErrorView::Config { field, msg: debug_text(v) + " is not a whole number"@ }
}

fn parse_u32(field: &'static str, v: &str) -> (r: Result<u32>)
    ensures
        match r {
            Ok(n) => u32_of(v@) == Some(n),
            Err(e) => u32_of(v@) is None && e@ == u32_error(field@, v@),
        },
{
    let c = chars_of(v);
    let n = c.len();
    let (a, b) = trim(&c, 0, n);
    assert(c@.subrange(0, n as int) =~= v@);
    match parse_number(&c, a, b, u32::MAX as u64) {
        Some(x) => Ok(x as u32),
        None => {
            let q = quoted(v);
            let msg = cat2(&q, " is not a whole number");
            Err(VmmError::config(field, &msg))
        },
    }
}

/// What is wrong with pair `i` of a boot command.
pub open spec fn boot_error(p: Seq<PairView>, i: int) -> Option<VmmErrorView> {
    let (flag, v) = p[i];
    if flag != "--disk"@ && repeated(p, i) {
        Some(repeated_error(flag))
    } else if flag == "--image"@ || flag == "--vsock-uds"@ || flag == "--control"@ {
        None
    } else if flag == "--disk"@ {
        disk_error(v)
    } else if flag == "--memory"@ || flag == "--memory-max"@ {
        if bytes_of(v) is None {
            Some(bytes_error(flag, v))
        } else {
            None
        }
    } else if flag == "--cpus"@ || flag == "--cpus-max"@ || flag == "--vsock"@ {
        if u32_of(v) is None {
            Some(u32_error(flag, v))
        } else {
            None
        }
    } else {
        Some(args_error("unknown flag "@ + flag + " for boot"@))
    }
}

/// A field that was not given.
pub open spec fn required(field: Seq<char>) -> VmmErrorView {
    VmmErrorView::Config { field, msg: "required"@ }
}

/// The byte count given for `flag`.
pub open spec fn bytes_given(p: Seq<PairView>, flag: Seq<char>) -> Option<u64> {
    match value_of(p, flag) {
        Some(v) => bytes_of(v),
        None => None,
    }
}

/// The whole number given for `flag`.
pub open spec fn number_given(p: Seq<PairView>, flag: Seq<char>) -> Option<u32> {
    match value_of(p, flag) {
        Some(v) => u32_of(v),
        None => None,
    }
}

/// What pairs without an error ask for: the first field that is missing, or a configuration.
pub open spec fn boot_config(p: Seq<PairView>, tmp: Seq<char>) -> std::result::Result<
    VmView,
    VmmErrorView,
> {
    let image = value_of(p, "--image"@);
    let memory = bytes_given(p, "--memory"@);
    let cpus = number_given(p, "--cpus"@);
    let cid = number_given(p, "--vsock"@);
    if image is None {
        Err(required("--image"@))
    } else if memory is None {
        Err(required("--memory"@))
    } else if cpus is None {
        Err(required("--cpus"@))
    } else if cid is None {
        Err(required("--vsock"@))
    } else {
        Ok(
            VmView {
                image: image->0,
                disks: disks_of(p),
                memory_bytes: memory->0,
                memory_max_bytes: match bytes_given(p, "--memory-max"@) {
                    Some(m) => m,
                    None => memory->0,
                },
                cpus: cpus->0,
                cpus_max: match number_given(p, "--cpus-max"@) {
                    Some(n) => n,
                    None => cpus->0,
                },
                cid: cid->0,
                uds_path: match value_of(p, "--vsock-uds"@) {
                    Some(u) => u,
                    None => vsock_path(tmp, cid->0),
                },
                control_socket: match value_of(p, "--control"@) {
                    Some(c) => c,
                    None => control_path(tmp, cid->0),
                },
            },
        )
    }
}

/// Whether `i` is the first pair that something is wrong with.
pub open spec fn first_wrong(errors: spec_fn(int) -> Option<VmmErrorView>, n: int, i: int) -> bool {
    0 <= i < n && errors(i) is Some && forall|j: int| 0 <= j < i ==> (#[trigger] errors(j)) is None
}

/// Whether nothing is wrong with any pair.
pub open spec fn none_wrong(errors: spec_fn(int) -> Option<VmmErrorView>, n: int) -> bool {
    forall|j: int| 0 <= j < n ==> (#[trigger] errors(j)) is None
}

/// What a parser of pairs gives: the arguments' own error, the first wrong pair's error, or
/// what the pairs ask for.
pub open spec fn outcome<T>(
    given: std::result::Result<Seq<PairView>, VmmErrorView>,
    errors: spec_fn(Seq<PairView>, int) -> Option<VmmErrorView>,
    asked: spec_fn(Seq<PairView>) -> std::result::Result<T, VmmErrorView>,
    got: std::result::Result<T, VmmErrorView>,
) -> bool {
    match given {
        Err(e) => got == Err::<T, VmmErrorView>(e),
        Ok(p) => {
            let at = |i: int| errors(p, i);
            ||| none_wrong(at, p.len() as int) && got == asked(p)
            ||| exists|i: int| #[trigger]
                first_wrong(at, p.len() as int, i) && got == Err::<T, VmmErrorView>(at(i)->0)
        },
    }
}

/// A result by its view.
pub open spec fn boot_view(r: Result<VmConfig>) -> std::result::Result<VmView, VmmErrorView> {
    match r {
        Ok(c) => Ok(c@),
        Err(e) => Err(e@),
    }
}

/// A result by its view.
pub open spec fn command_view(r: Result<Command>) -> std::result::Result<
    CommandView,
    VmmErrorView,
> {
    match r {
        Ok(c) => Ok(c@),
        Err(e) => Err(e@),
    }
}

/// A text that may be there.
pub open spec fn opt_view(s: Option<String>) -> Option<Seq<char>> {
    match s {
        Some(t) => Some(t@),
        None => None,
    }
}

/// The flags of a boot command differ from one another.
proof fn lemma_flags()
    ensures
        "--image"@ != "--disk"@ && "--image"@ != "--memory"@ && "--image"@ != "--memory-max"@
            && "--image"@ != "--cpus"@ && "--image"@ != "--cpus-max"@ && "--image"@ != "--vsock"@
            && "--image"@ != "--vsock-uds"@ && "--image"@ != "--control"@,
        "--disk"@ != "--memory"@ && "--disk"@ != "--memory-max"@ && "--disk"@ != "--cpus"@
            && "--disk"@ != "--cpus-max"@ && "--disk"@ != "--vsock"@ && "--disk"@
            != "--vsock-uds"@ && "--disk"@ != "--control"@,
        "--memory"@ != "--memory-max"@ && "--memory"@ != "--cpus"@ && "--memory"@
            != "--cpus-max"@ && "--memory"@ != "--vsock"@ && "--memory"@ != "--vsock-uds"@
            && "--memory"@ != "--control"@,
        "--memory-max"@ != "--cpus"@ && "--memory-max"@ != "--cpus-max"@ && "--memory-max"@
            != "--vsock"@ && "--memory-max"@ != "--vsock-uds"@ && "--memory-max"@ != "--control"@,
        "--cpus"@ != "--cpus-max"@ && "--cpus"@ != "--vsock"@ && "--cpus"@ != "--vsock-uds"@
            && "--cpus"@ != "--control"@,
        "--cpus-max"@ != "--vsock"@ && "--cpus-max"@ != "--vsock-uds"@ && "--cpus-max"@
            != "--control"@,
        "--vsock"@ != "--vsock-uds"@ && "--vsock"@ != "--control"@,
        "--vsock-uds"@ != "--control"@,
{
    reveal_strlit("--image");
    reveal_strlit("--disk");
    reveal_strlit("--memory");
    reveal_strlit("--memory-max");
    reveal_strlit("--cpus");
    reveal_strlit("--cpus-max");
    reveal_strlit("--vsock");
    reveal_strlit("--vsock-uds");
    reveal_strlit("--control");
    assert("--image"@.len() == 7 && "--disk"@.len() == 6 && "--memory"@.len() == 8);
    assert("--memory-max"@.len() == 12 && "--cpus"@.len() == 6 && "--cpus-max"@.len() == 10);
    assert("--vsock"@.len() == 7 && "--vsock-uds"@.len() == 11 && "--control"@.len() == 9);
    assert("--image"@[2] == 'i' && "--vsock"@[2] == 'v');
    assert("--disk"@[2] == 'd' && "--cpus"@[2] == 'c');
}

fn parse_boot(args: &Vec<String>, from: usize, tmp: &str) -> (r: Result<VmConfig>)
    requires
        from <= args@.len(),
    ensures
        outcome(
            pairs_from(arg_views(args@), from as int),
            |p: Seq<PairView>, i: int| boot_error(p, i),
            |p: Seq<PairView>| boot_config(p, tmp@),
            boot_view(r),
        ),
{
    let given = match pairs(args, from) {
        Ok(g) => g,
        Err(e) => {
            return Err(e);
        },
    };
    let ghost p = pair_views(given@);
    let ghost f = |p: Seq<PairView>, i: int| boot_error(p, i);
    let ghost at = |i: int| f(p, i);
    proof {
        lemma_flags();
    }
    let mut image: Option<String> = None;
    let mut disks: Vec<DiskConfig> = Vec::new();
    let mut memory: Option<u64> = None;
    let mut memory_max: Option<u64> = None;
    let mut cpus: Option<u32> = None;
    let mut cpus_max: Option<u32> = None;
    let mut cid: Option<u32> = None;
    let mut uds: Option<String> = None;
    let mut control: Option<String> = None;
    let mut i: usize = 0;
    assert(disk_views(disks@) =~= Seq::<DiskView>::empty());
    while i < given.len()
        invariant
            i <= given@.len(),
            p == pair_views(given@),
            f == |p: Seq<PairView>, i: int| boot_error(p, i),
            at == |i: int| f(p, i),
            pairs_from(arg_views(args@), from as int) == Ok::<Seq<PairView>, VmmErrorView>(p),
            forall|j: int| 0 <= j < i ==> (#[trigger] at(j)) is None,
            opt_view(image) == value_of(p.subrange(0, i as int), "--image"@),
            disk_views(disks@) == disks_of(p.subrange(0, i as int)),
            memory == bytes_given(p.subrange(0, i as int), "--memory"@),
            memory_max == bytes_given(p.subrange(0, i as int), "--memory-max"@),
            cpus == number_given(p.subrange(0, i as int), "--cpus"@),
            cpus_max == number_given(p.subrange(0, i as int), "--cpus-max"@),
            cid == number_given(p.subrange(0, i as int), "--vsock"@),
            opt_view(uds) == value_of(p.subrange(0, i as int), "--vsock-uds"@),
            opt_view(control) == value_of(p.subrange(0, i as int), "--control"@),
        decreases given@.len() - i,
    {
        proof {
            lemma_flags();
            assert(p.subrange(0, i + 1).drop_last() =~= p.subrange(0, i as int));
            assert(p.subrange(0, i + 1).last() == p[i as int]);
        }
        let flag = &given[i].0;
        let value = &given[i].1;
        assert(p[i as int] == (flag@, value@));
        assert(at(i as int) is Some ==> first_wrong(at, p.len() as int, i as int));
        if !same(flag, "--disk") {
            match once(&given, i) {
                Ok(()) => {},
                Err(e) => {
                    assert(at(i as int) == Some(e@));
                    return Err(e);
                },
            }
        }
        if same(flag, "--image") {
            image = Some(value.clone());
        } else if same(flag, "--disk") {
            match parse_disk(value) {
                Ok(d) => {
                    let ghost before = disk_views(disks@);
                    disks.push(d);
                    assert(disk_views(disks@) =~= before.push(d@));
                },
                Err(e) => {
                    assert(at(i as int) == Some(e@));
                    return Err(e);
                },
            }
        } else if same(flag, "--memory") {
            match parse_bytes("--memory", value) {
                Ok(n) => {
                    memory = Some(n);
                },
                Err(e) => {
                    assert(at(i as int) == Some(e@));
                    return Err(e);
                },
            }
        } else if same(flag, "--memory-max") {
            match parse_bytes("--memory-max", value) {
                Ok(n) => {
                    memory_max = Some(n);
                },
                Err(e) => {
                    assert(at(i as int) == Some(e@));
                    return Err(e);
                },
            }
        } else if same(flag, "--cpus") {
            match parse_u32("--cpus", value) {
                Ok(n) => {
                    cpus = Some(n);
                },
                Err(e) => {
                    assert(at(i as int) == Some(e@));
                    return Err(e);
                },
            }
        } else if same(flag, "--cpus-max") {
            match parse_u32("--cpus-max", value) {
                Ok(n) => {
                    cpus_max = Some(n);
                },
                Err(e) => {
                    assert(at(i as int) == Some(e@));
                    return Err(e);
                },
            }
        } else if same(flag, "--vsock") {
            match parse_u32("--vsock", value) {
                Ok(n) => {
                    cid = Some(n);
                },
                Err(e) => {
                    assert(at(i as int) == Some(e@));
                    return Err(e);
                },
            }
        } else if same(flag, "--vsock-uds") {
            uds = Some(value.clone());
        } else if same(flag, "--control") {
            control = Some(value.clone());
        } else {
            let msg = cat3("unknown flag ", flag, " for boot");
            let e = VmmError::config("arguments", &msg);
            assert(at(i as int) == Some(e@));
            return Err(e);
        }
        assert(at(i as int) is None);
        i += 1;
    }
    assert(p.subrange(0, i as int) =~= p);
    assert(none_wrong(at, p.len() as int));
    let image: String = match image {
        Some(s) => s,
        None => {
            return Err(VmmError::config("--image", "required"));
        },
    };
    let memory: u64 = match memory {
        Some(n) => n,
        None => {
            return Err(VmmError::config("--memory", "required"));
        },
    };
    let cpus: u32 = match cpus {
        Some(n) => n,
        None => {
            return Err(VmmError::config("--cpus", "required"));
        },
    };
    let cid: u32 = match cid {
        Some(n) => n,
        None => {
            return Err(VmmError::config("--vsock", "required"));
        },
    };
    let c = VmConfig {
        image,
        disks,
        memory_bytes: memory,
        memory_max_bytes: match memory_max {
            Some(m) => m,
            None => memory,
        },
        cpus,
        cpus_max: match cpus_max {
            Some(n) => n,
            None => cpus,
        },
        vsock: VsockConfig {
            cid,
            uds_path: match uds {
                Some(u) => u,
                None => default_vsock_path(tmp, cid),
            },
        },
        control_socket: match control {
            Some(c) => c,
            None => default_control_path(tmp, cid),
        },
    };
    assert(boot_config(p, tmp@) == Ok::<VmView, VmmErrorView>(c@));
    Ok(c)
}

/// What is wrong with pair `i` of a status or stop command.
pub open spec fn simple_error(p: Seq<PairView>, i: int, name: Seq<char>) -> Option<VmmErrorView> {
    let (flag, v) = p[i];
    if repeated(p, i) {
        Some(repeated_error(flag))
    } else if flag == "--control"@ {
        None
    } else if flag == "--vsock"@ {
        if u32_of(v) is None {
            Some(u32_error(flag, v))
        } else {
            None
        }
    } else {
        Some(args_error("unknown flag "@ + flag + " for "@ + name))
    }
}

/// What is wrong with pair `i` of a resize command.
pub open spec fn resize_error(p: Seq<PairView>, i: int) -> Option<VmmErrorView> {
    let (flag, v) = p[i];
    if repeated(p, i) {
        Some(repeated_error(flag))
    } else if flag == "--control"@ {
        None
    } else if flag == "--vsock"@ {
        if u32_of(v) is None {
            Some(u32_error(flag, v))
        } else {
            None
        }
    } else if flag == "--memory"@ && bytes_of(v) is None {
        Some(bytes_error(flag, v))
    } else if flag == "--cpus"@ && u32_of(v) is None {
        Some(u32_error(flag, v))
    } else if flag != "--memory"@ && flag != "--cpus"@ {
        Some(args_error("unknown flag "@ + flag + " for resize"@))
    } else if asked_for(p.subrange(0, i)) is Some {
        Some(
            VmmErrorView::Config {
                field: "resize"@,
                msg: "one of --memory or --cpus per request, not both"@,
            },
        )
    } else {
        None
    }
}

/// The control socket the pairs name: the last of `--control` and `--vsock`.
pub open spec fn target(p: Seq<PairView>, tmp: Seq<char>) -> Option<Seq<char>>
    decreases p.len(),
{
    if p.len() == 0 {
        None
    } else if p.last().0 == "--control"@ {
        Some(p.last().1)
    } else if p.last().0 == "--vsock"@ {
        Some(control_path(tmp, u32_of(p.last().1)->0))
    } else {
        target(p.drop_last(), tmp)
    }
}

/// The resize the pairs ask for.
pub open spec fn asked_for(p: Seq<PairView>) -> Option<Request>
    decreases p.len(),
{
    if p.len() == 0 {
        None
    } else if p.last().0 == "--memory"@ {
        Some(Request::ResizeMemory { bytes: bytes_of(p.last().1)->0 })
    } else if p.last().0 == "--cpus"@ {
        Some(Request::ResizeCpus { cpus: u32_of(p.last().1)->0 })
    } else {
        asked_for(p.drop_last())
    }
}

/// The error of a command that names no control socket.
pub open spec fn no_target() -> VmmErrorView {
    VmmErrorView::Config { field: "--control"@, msg: "required (or --vsock <cid>)"@ }
}

/// What the pairs of a resize command without an error ask for.
pub open spec fn resize_command(p: Seq<PairView>, tmp: Seq<char>) -> std::result::Result<
    CommandView,
    VmmErrorView,
> {
    if target(p, tmp) is None {
        Err(no_target())
    } else if asked_for(p) is None {
        Err(VmmErrorView::Config { field: "resize"@, msg: "--memory or --cpus"@ })
    } else {
        Ok(CommandView::Control { socket: target(p, tmp)->0, request: asked_for(p)->0 })
    }
}

/// What the pairs of a status or stop command without an error ask for.
pub open spec fn simple_command(
    p: Seq<PairView>,
    tmp: Seq<char>,
    request: Request,
) -> std::result::Result<CommandView, VmmErrorView> {
    if target(p, tmp) is None {
        Err(no_target())
    } else {
        Ok(CommandView::Control { socket: target(p, tmp)->0, request })
    }
}

proof fn lemma_target(p: Seq<PairView>, tmp: Seq<char>)
    requires
        value_of(p, "--control"@) is None,
        value_of(p, "--vsock"@) is Some,
    ensures
        target(p, tmp) == Some(control_path(tmp, u32_of(value_of(p, "--vsock"@)->0)->0)),
    decreases p.len(),
{
    if p.last().0 != "--vsock"@ {
        lemma_target(p.drop_last(), tmp);
    }
}

/// A command that names a running guest by its context id reaches the control socket that the
/// guest was booted with, where the boot named no other.
pub proof fn law_a_guest_is_found_by_its_cid(
    boot: Seq<PairView>,
    p: Seq<PairView>,
    tmp: Seq<char>,
)
    requires
        boot_config(boot, tmp) is Ok,
        value_of(boot, "--control"@) is None,
        value_of(p, "--control"@) is None,
        number_given(p, "--vsock"@) == number_given(boot, "--vsock"@),
    ensures
        target(p, tmp) == Some(boot_config(boot, tmp)->Ok_0.control_socket),
{
    lemma_target(p, tmp);
}

/// The control socket a pair names, if its flag names one.
fn control_target(flag: &str, value: &str, tmp: &str) -> (r: Result<Option<String>>)
    ensures
        match r {
            Ok(Some(s)) => if flag@ == "--control"@ {
                s@ == value@
            } else {
                flag@ == "--vsock"@ && u32_of(value@) is Some && s@ == control_path(
                    tmp@,
                    u32_of(value@)->0,
                )
            },
            Ok(None) => flag@ != "--control"@ && flag@ != "--vsock"@,
            Err(e) => flag@ != "--control"@ && flag@ == "--vsock"@ && u32_of(value@) is None && e@
                == u32_error("--vsock"@, value@),
        },
{
    if same(flag, "--control") {
        Ok(Some(value.to_owned()))
    } else if same(flag, "--vsock") {
        match parse_u32("--vsock", value) {
            Ok(cid) => Ok(Some(default_control_path(tmp, cid))),
            Err(e) => Err(e),
        }
    } else {
        Ok(None)
    }
}

fn parse_resize(args: &Vec<String>, from: usize, tmp: &str) -> (r: Result<Command>)
    requires
        from <= args@.len(),
    ensures
        outcome(
            pairs_from(arg_views(args@), from as int),
            |p: Seq<PairView>, i: int| resize_error(p, i),
            |p: Seq<PairView>| resize_command(p, tmp@),
            command_view(r),
        ),
{
    let given = match pairs(args, from) {
        Ok(g) => g,
        Err(e) => {
            return Err(e);
        },
    };
    let ghost p = pair_views(given@);
    let ghost f = |p: Seq<PairView>, i: int| resize_error(p, i);
    let ghost at = |i: int| f(p, i);
    let mut socket: Option<String> = None;
    let mut request: Option<Request> = None;
    let mut i: usize = 0;
    while i < given.len()
        invariant
            i <= given@.len(),
            p == pair_views(given@),
            f == |p: Seq<PairView>, i: int| resize_error(p, i),
            at == |i: int| f(p, i),
            pairs_from(arg_views(args@), from as int) == Ok::<Seq<PairView>, VmmErrorView>(p),
            forall|j: int| 0 <= j < i ==> (#[trigger] at(j)) is None,
            opt_view(socket) == target(p.subrange(0, i as int), tmp@),
            request == asked_for(p.subrange(0, i as int)),
        decreases given@.len() - i,
    {
        proof {
            lemma_flags();
            assert(p.subrange(0, i + 1).drop_last() =~= p.subrange(0, i as int));
            assert(p.subrange(0, i + 1).last() == p[i as int]);
        }
        let flag = &given[i].0;
        let value = &given[i].1;
        assert(p[i as int] == (flag@, value@));
        assert(at(i as int) is Some ==> first_wrong(at, p.len() as int, i as int));
        match once(&given, i) {
            Ok(()) => {},
            Err(e) => {
                assert(at(i as int) == Some(e@));
                return Err(e);
            },
        }
        match control_target(flag, value, tmp) {
            Ok(Some(s)) => {
                socket = Some(s);
                assert(at(i as int) is None);
                i += 1;
                continue;
            },
            Ok(None) => {},
            Err(e) => {
                assert(at(i as int) == Some(e@));
                return Err(e);
            },
        }
        let r: Request = if same(flag, "--memory") {
            match parse_bytes("--memory", value) {
                Ok(bytes) => Request::ResizeMemory { bytes },
                Err(e) => {
                    assert(at(i as int) == Some(e@));
                    return Err(e);
                },
            }
        } else if same(flag, "--cpus") {
            match parse_u32("--cpus", value) {
                Ok(cpus) => Request::ResizeCpus { cpus },
                Err(e) => {
                    assert(at(i as int) == Some(e@));
                    return Err(e);
                },
            }
        } else {
            let msg = cat3("unknown flag ", flag, " for resize");
            let e = VmmError::config("arguments", &msg);
            assert(at(i as int) == Some(e@));
            return Err(e);
        };
        if request.is_some() {
            let e = VmmError::config("resize", "one of --memory or --cpus per request, not both");
            assert(at(i as int) == Some(e@));
            return Err(e);
        }
        request = Some(r);
        assert(at(i as int) is None);
        i += 1;
    }
    assert(p.subrange(0, i as int) =~= p);
    assert(none_wrong(at, p.len() as int));
    let socket: String = match socket {
        Some(s) => s,
        None => {
            return Err(VmmError::config("--control", "required (or --vsock <cid>)"));
        },
    };
    let request: Request = match request {
        Some(r) => r,
        None => {
            return Err(VmmError::config("resize", "--memory or --cpus"));
        },
    };
    Ok(Command::Control { socket, request })
}

fn parse_simple(
    args: &Vec<String>,
    from: usize,
    request: Request,
    name: &str,
    tmp: &str,
) -> (r: Result<Command>)
    requires
        from <= args@.len(),
    ensures
        outcome(
            pairs_from(arg_views(args@), from as int),
            |p: Seq<PairView>, i: int| simple_error(p, i, name@),
            |p: Seq<PairView>| simple_command(p, tmp@, request),
            command_view(r),
        ),
{
    let given = match pairs(args, from) {
        Ok(g) => g,
        Err(e) => {
            return Err(e);
        },
    };
    let ghost p = pair_views(given@);
    let ghost f = |p: Seq<PairView>, i: int| simple_error(p, i, name@);
    let ghost at = |i: int| f(p, i);
    let mut socket: Option<String> = None;
    let mut i: usize = 0;
    while i < given.len()
        invariant
            i <= given@.len(),
            p == pair_views(given@),
            f == |p: Seq<PairView>, i: int| simple_error(p, i, name@),
            at == |i: int| f(p, i),
            pairs_from(arg_views(args@), from as int) == Ok::<Seq<PairView>, VmmErrorView>(p),
            forall|j: int| 0 <= j < i ==> (#[trigger] at(j)) is None,
            opt_view(socket) == target(p.subrange(0, i as int), tmp@),
        decreases given@.len() - i,
    {
        proof {
            lemma_flags();
            assert(p.subrange(0, i + 1).drop_last() =~= p.subrange(0, i as int));
            assert(p.subrange(0, i + 1).last() == p[i as int]);
        }
        let flag = &given[i].0;
        let value = &given[i].1;
        assert(p[i as int] == (flag@, value@));
        assert(at(i as int) is Some ==> first_wrong(at, p.len() as int, i as int));
        match once(&given, i) {
            Ok(()) => {},
            Err(e) => {
                assert(at(i as int) == Some(e@));
                return Err(e);
            },
        }
        match control_target(flag, value, tmp) {
            Ok(Some(s)) => {
                socket = Some(s);
                assert(at(i as int) is None);
            },
            Ok(None) => {
                let msg = cat4("unknown flag ", flag, " for ", name);
                let e = VmmError::config("arguments", &msg);
                assert(at(i as int) == Some(e@));
                return Err(e);
            },
            Err(e) => {
                assert(at(i as int) == Some(e@));
                return Err(e);
            },
        }
        i += 1;
    }
    assert(p.subrange(0, i as int) =~= p);
    assert(none_wrong(at, p.len() as int));
    match socket {
        Some(s) => Ok(Command::Control { socket: s, request }),
        None => Err(VmmError::config("--control", "required (or --vsock <cid>)")),
    }
}

/// What arguments without the program name ask for, by their first.
pub open spec fn command_outcome(
    a: Seq<Seq<char>>,
    tmp: Seq<char>,
    got: std::result::Result<CommandView, VmmErrorView>,
) -> bool {
    if a.len() == 0 {
        got == Err::<CommandView, VmmErrorView>(
            VmmErrorView::Config {
                field: "command"@,
                msg: "missing; one of boot, resize, status, stop"@,
            },
        )
    } else if a[0] == "boot"@ {
        outcome(
            pairs_from(a, 1),
            |p: Seq<PairView>, i: int| boot_error(p, i),
            |p: Seq<PairView>| boot_config(p, tmp),
            match got {
                Ok(CommandView::Boot(c)) => Ok(c),
                Ok(_) => arbitrary(),
                Err(e) => Err(e),
            },
        ) && (got matches Ok(c) ==> c is Boot)
    } else if a[0] == "resize"@ {
        outcome(
            pairs_from(a, 1),
            |p: Seq<PairView>, i: int| resize_error(p, i),
            |p: Seq<PairView>| resize_command(p, tmp),
            got,
        )
    } else if a[0] == "status"@ {
        outcome(
            pairs_from(a, 1),
            |p: Seq<PairView>, i: int| simple_error(p, i, "status"@),
            |p: Seq<PairView>| simple_command(p, tmp, Request::Status),
            got,
        )
    } else if a[0] == "stop"@ {
        outcome(
            pairs_from(a, 1),
            |p: Seq<PairView>, i: int| simple_error(p, i, "stop"@),
            |p: Seq<PairView>| simple_command(p, tmp, Request::Stop),
            got,
        )
    } else if a[0] == "-h"@ || a[0] == "--help"@ || a[0] == "help"@ {
        got == Ok::<CommandView, VmmErrorView>(CommandView::Help)
    } else if a[0] == "-V"@ || a[0] == "--version"@ {
        got == Ok::<CommandView, VmmErrorView>(CommandView::Version)
    } else {
        got == Err::<CommandView, VmmErrorView>(
            VmmErrorView::Config {
                field: "command"@,
                msg: "unknown command "@ + debug_text(a[0])
                    + "; one of boot, resize, status, stop"@,
            },
        )
    }
}

/// Parse `args` (without the program name); default socket paths lie in `tmp`.
pub fn parse(args: &Vec<String>, tmp: &str) -> (r: Result<Command>)
    ensures
        command_outcome(arg_views(args@), tmp@, command_view(r)),
{
    if args.len() == 0 {
        return Err(VmmError::config("command", "missing; one of boot, resize, status, stop"));
    }
    let sub = &args[0];
    assert(arg_views(args@)[0] == sub@);
    if same(sub, "boot") {
        match parse_boot(args, 1, tmp) {
            Ok(c) => Ok(Command::Boot(c)),
            Err(e) => Err(e),
        }
    } else if same(sub, "resize") {
        parse_resize(args, 1, tmp)
    } else if same(sub, "status") {
        parse_simple(args, 1, Request::Status, "status", tmp)
    } else if same(sub, "stop") {
        parse_simple(args, 1, Request::Stop, "stop", tmp)
    } else if same(sub, "-h") || same(sub, "--help") || same(sub, "help") {
        Ok(Command::Help)
    } else if same(sub, "-V") || same(sub, "--version") {
        Ok(Command::Version)
    } else {
        let q = quoted(sub);
        let msg = cat3("unknown command ", &q, "; one of boot, resize, status, stop");
        Err(VmmError::config("command", &msg))
    }
}

} // verus!
