//! What a guest's interpreter makes of the DSDT's methods: the few operations they use, over the
//! registers of the CPU hot-plug controller.

use super::aml::{
    arg_image, enclosed_image, length_bytes, length_image, lemma_enclosed_len, local_image,
    method_image, name_image, number_image,
};
use super::{
    acquire_image, cpus_image, csta_image, cscn_image, ctfy_cases, dsdt_image, name4_text,
    release_image,
};
use crate::bytes::{le_at, le_bytes, lemma_le_bytes_len};
use crate::devices::cpu_hotplug::CpuView;
use vstd::prelude::*;

verus! {

/// The state of a method that runs: its arguments and locals, the controller, the lock, the calls of
/// the method that passes notifications on, the notifications, and what was returned.
#[verifier::ext_equal]
pub struct Env {
    pub args: Seq<int>,
    pub locals: Map<int, int>,
    pub cpu: CpuView,
    pub held: int,
    pub called: Seq<(int, int)>,
    pub told: Seq<(Seq<u8>, int)>,
    pub result: Option<int>,
}

/// The four bytes at the head of the code.
pub open spec fn word4(code: Seq<u8>) -> Seq<u8> {
    code.take(4)
}

/// `CSEL`, the register that selects a CPU.
pub open spec fn csel() -> Seq<u8> {
    seq![0x43u8, 0x53, 0x45, 0x4c]
}

/// `CPEN`, the bit that says whether the selected CPU is enabled.
pub open spec fn cpen() -> Seq<u8> {
    seq![0x43u8, 0x50, 0x45, 0x4e]
}

/// `CINS`, the bit that says whether the selected CPU was inserted and not seen yet.
pub open spec fn cins() -> Seq<u8> {
    seq![0x43u8, 0x49, 0x4e, 0x53]
}

/// `CTFY`, the method that passes a notification on.
pub open spec fn ctfy_name() -> Seq<u8> {
    seq![0x43u8, 0x54, 0x46, 0x59]
}

/// `CSTA`, the method that gives the status of a vCPU.
pub open spec fn csta_name() -> Seq<u8> {
    seq![0x43u8, 0x53, 0x54, 0x41]
}

/// `CSCN`, the method that looks for inserted vCPUs.
pub open spec fn cscn_name() -> Seq<u8> {
    seq![0x43u8, 0x53, 0x43, 0x4e]
}

/// The value of the term at the head of the code, and the code behind it.
pub open spec fn value(code: Seq<u8>, e: Env) -> (int, Seq<u8>) {
    if code[0] == 0 || code[0] == 1 {
        (code[0] as int, code.skip(1))
    } else if code[0] == 0x0a {
        (code[1] as int, code.skip(2))
    } else if code[0] == 0x0b {
        (code[1] + 256 * code[2], code.skip(3))
    } else if code[0] == 0x0c {
        (code[1] + 256 * code[2] + 65536 * code[3] + 16777216 * code[4], code.skip(5))
    } else if 0x60 <= code[0] <= 0x67 {
        (e.locals[code[0] - 0x60], code.skip(1))
    } else if 0x68 <= code[0] <= 0x6e {
        (e.args[code[0] - 0x68], code.skip(1))
    } else if word4(code) == cpen() {
        (e.cpu.stat() as int % 2, code.skip(4))
    } else if word4(code) == cins() {
        (e.cpu.stat() as int / 2 % 2, code.skip(4))
    } else {
        (-1, code.skip(4))
    }
}

/// Whether the test at the head of the code holds, and the code behind it.
pub open spec fn condition(code: Seq<u8>, e: Env) -> (bool, Seq<u8>) {
    let (a, rest) = value(code.skip(1), e);
    let (b, behind) = value(rest, e);
    (
        if code[0] == 0x93 {
            a == b
        } else {
            code[0] == 0x95 && a < b
        },
        behind,
    )
}

/// The state once `v` was stored to the target at the head of the code, and the code behind it.
pub open spec fn stored(code: Seq<u8>, v: int, e: Env) -> (Env, Seq<u8>) {
    if 0x60 <= code[0] <= 0x67 {
        (Env { locals: e.locals.insert(code[0] - 0x60, v), ..e }, code.skip(1))
    } else if word4(code) == csel() {
        (Env { cpu: CpuView { selected: v as u32, ..e.cpu }, ..e }, code.skip(4))
    } else if word4(code) == cins() {
        (
            Env {
                cpu: if v % 2 == 1 {
                    e.cpu.seen()
                } else {
                    e.cpu
                },
                ..e
            },
            code.skip(4),
        )
    } else {
        (e, code.skip(4))
    }
}

/// How many bytes the length at the head of the code has.
pub open spec fn length_size(code: Seq<u8>) -> int {
    1 + code[0] as int / 64
}

/// The length at the head of the code, which counts its own bytes: six bits, or four and those of
/// the bytes that follow.
pub open spec fn length_value(code: Seq<u8>) -> int {
    if code[0] < 64 {
        code[0] as int
    } else {
        code[0] as int % 16 + 16 * le_at(code, 1, (length_size(code) - 1) as nat)
    }
}

/// The state once the code has run.
pub open spec fn run(code: Seq<u8>, e: Env, fuel: nat) -> Env
    decreases fuel,
{
    if fuel == 0 || code.len() == 0 || e.result is Some {
        e
    } else if code[0] == 0x70 {
        let (v, rest) = value(code.skip(1), e);
        let (after, behind) = stored(rest, v, e);
        run(behind, after, (fuel - 1) as nat)
    } else if code[0] == 0x72 {
        let (a, rest) = value(code.skip(1), e);
        let (b, more) = value(rest, e);
        let (after, behind) = stored(more, a + b, e);
        run(behind, after, (fuel - 1) as nat)
    } else if code[0] == 0xa0 || code[0] == 0xa2 {
        let at = code.skip(1);
        let inner = at.subrange(length_size(at), length_value(at));
        let behind = at.skip(length_value(at));
        let (holds, body) = condition(inner, e);
        if !holds {
            run(behind, e, (fuel - 1) as nat)
        } else {
            let after = run(body, e, (fuel - 1) as nat);
            if code[0] == 0xa0 {
                run(behind, after, (fuel - 1) as nat)
            } else {
                run(code, after, (fuel - 1) as nat)
            }
        }
    } else if code[0] == 0xa4 {
        Env { result: Some(value(code.skip(1), e).0), ..e }
    } else if code[0] == 0x86 {
        let (v, behind) = value(code.skip(5), e);
        run(behind, Env { told: e.told.push((word4(code.skip(1)), v)), ..e }, (fuel - 1) as nat)
    } else if code[0] == 0x5b && code[1] == 0x23 {
        run(code.skip(8), Env { held: e.held + 1, ..e }, (fuel - 1) as nat)
    } else if code[0] == 0x5b && code[1] == 0x27 {
        run(code.skip(6), Env { held: e.held - 1, ..e }, (fuel - 1) as nat)
    } else if word4(code) == ctfy_name() {
        let (a, rest) = value(code.skip(4), e);
        let (b, behind) = value(rest, e);
        run(behind, Env { called: e.called.push((a, b)), ..e }, (fuel - 1) as nat)
    } else {
        e
    }
}

/// A method that starts with these arguments.
pub open spec fn entered(args: Seq<int>, cpu: CpuView) -> Env {
    Env {
        args,
        locals: Map::empty(),
        cpu,
        held: 0,
        called: Seq::empty(),
        told: Seq::empty(),
        result: None,
    }
}

/// Whether the code has, somewhere, the object `op` of this name and body, which is as long as its
/// length says.
pub open spec fn has_object(code: Seq<u8>, op: Seq<u8>, name: Seq<u8>, body: Seq<u8>) -> bool {
    exists|at: int| #[trigger] object_at(code, at, op, name, body)
}

/// Whether the object `op` of this name and body begins at `at`.
pub open spec fn object_at(code: Seq<u8>, at: int, op: Seq<u8>, name: Seq<u8>, body: Seq<u8>) -> bool {
    let from = at + op.len();
    let len = length_value(code.skip(from));
    let size = length_size(code.skip(from));
    &&& 0 <= at && from < code.len()
    &&& code.subrange(at, from) == op
    &&& from + len <= code.len() && size + name.len() <= len
    &&& code.subrange(from + size, from + size + name.len()) == name
    &&& code.subrange(from + size + name.len(), from + len) == body
}

/// Whether the code has a method of this name, with these flags: the number of its arguments, and 8
/// where it is serialized.
pub open spec fn has_method(code: Seq<u8>, name: Seq<u8>, flags: u8, body: Seq<u8>) -> bool {
    has_object(code, seq![0x14u8], name + seq![flags], body)
}

/// A length is read as that of its object, however long that is, and its object behind it.
pub proof fn law_lengths_read_back(body: Seq<u8>, rest: Seq<u8>)
    requires
        body.len() < 0xfff_0000,
    ensures
        ({
            let code = length_image(body.len()) + body + rest;
            &&& length_size(code) == length_image(body.len()).len()
            &&& length_value(code) == length_image(body.len()).len() + body.len()
            &&& code.subrange(length_size(code), length_value(code)) == body
            &&& code.skip(length_value(code)) == rest
        }),
{
    let n = body.len();
    let k = length_bytes(n);
    let total = n + k;
    let image = length_image(n);
    let code = image + body + rest;
    lemma_le_bytes_len(total / 16, (k - 1) as nat);
    assert(image.len() == k);
    if k > 1 {
        let m = (k - 1) as nat;
        assert(code.subrange(1, 1 + m as int) =~= le_bytes(total / 16, m));
        assert(total / 16 < crate::bytes::le_bound(m)) by {
            reveal_with_fuel(crate::bytes::le_bound, 4);
        }
        crate::bytes::lemma_le_round_trip(code, 1, total / 16, m);
        assert(code[0] == image[0]);
        assert(image[0] == ((k - 1) * 64 + total % 16) as u8);
    } else {
        assert(code[0] == total);
    }
    assert(code.subrange(k as int, total as int) =~= body);
    assert(code.skip(total as int) =~= rest);
}

/// A number is read as it is.
pub proof fn law_numbers_read_back(n: u32, rest: Seq<u8>, e: Env)
    ensures
        value(number_image(n) + rest, e) == (n as int, rest),
{
    reveal(number_image);
    let code = number_image(n) + rest;
    lemma_le_bytes_len(n as nat, 2);
    lemma_le_bytes_len(n as nat, 4);
    reveal_with_fuel(le_bytes, 5);
    assert(code.skip(number_image(n).len() as int) =~= rest);
}

pub(crate) proof fn lemma_names()
    ensures
        name_image("CSEL"@) == csel(),
        name_image("CPEN"@) == cpen(),
        name_image("CINS"@) == cins(),
        name_image("CTFY"@) == ctfy_name(),
        name_image("CLCK"@) == seq![0x43u8, 0x4c, 0x43, 0x4b],
        name_image("CSTA"@) == csta_name(),
        name_image("CSCN"@) == cscn_name(),
        le_bytes(0xffff, 2) == seq![0xffu8, 0xff],
{
    reveal(name_image);
    reveal_strlit("CSEL");
    reveal_strlit("CPEN");
    reveal_strlit("CINS");
    reveal_strlit("CTFY");
    reveal_strlit("CLCK");
    reveal_strlit("CSTA");
    reveal_strlit("CSCN");
    reveal_with_fuel(le_bytes, 3);
    assert(name_image("CSEL"@) =~= csel());
    assert(name_image("CPEN"@) =~= cpen());
    assert(name_image("CINS"@) =~= cins());
    assert(name_image("CTFY"@) =~= ctfy_name());
    assert(name_image("CLCK"@) =~= seq![0x43u8, 0x4c, 0x43, 0x4b]);
    assert(name_image("CSTA"@) =~= csta_name());
    assert(name_image("CSCN"@) =~= cscn_name());
    assert(le_bytes(0xffff, 2) =~= seq![0xffu8, 0xff]);
}

/// Taking the lock runs as one step.
pub(crate) proof fn lemma_acquire(rest: Seq<u8>, e: Env, fuel: nat)
    requires
        fuel > 0,
        e.result is None,
    ensures
        run(acquire_image() + rest, e, fuel) == run(
            rest,
            Env { held: e.held + 1, ..e },
            (fuel - 1) as nat,
        ),
{
    lemma_names();
    let code = acquire_image() + rest;
    assert(acquire_image().len() == 8);
    assert(code[0] == 0x5b && code[1] == 0x23);
    assert(code.skip(8) =~= rest);
}

pub(crate) proof fn lemma_release(rest: Seq<u8>, e: Env, fuel: nat)
    requires
        fuel > 0,
        e.result is None,
    ensures
        run(release_image() + rest, e, fuel) == run(
            rest,
            Env { held: e.held - 1, ..e },
            (fuel - 1) as nat,
        ),
{
    lemma_names();
    let code = release_image() + rest;
    assert(release_image().len() == 6);
    assert(code[0] == 0x5b && code[1] == 0x27);
    assert(code.skip(6) =~= rest);
}

/// A store of what one byte stands for.
pub(crate) proof fn lemma_store(target: Seq<u8>, b: u8, rest: Seq<u8>, e: Env, fuel: nat)
    requires
        fuel > 0,
        e.result is None,
        b <= 1 || 0x60 <= b <= 0x6e,
        target == csel() || target == cins() || (target.len() == 1 && 0x60 <= target[0] <= 0x67),
    ensures
        ({
            let v = value(seq![b], e).0;
            run(super::aml::store_image(target, seq![b]) + rest, e, fuel) == run(
                rest,
                stored(target, v, e).0,
                (fuel - 1) as nat,
            )
        }),
{
    let code = super::aml::store_image(target, seq![b]) + rest;
    assert(code[0] == 0x70);
    assert(code.skip(1)[0] == b);
    assert(code.skip(1).skip(1) =~= target + rest);
    let t = target + rest;
    assert(t.skip(target.len() as int) =~= rest);
    assert(t[0] == target[0]);
    assert(target.len() == 4 ==> word4(t) =~= target);
    assert(target.len() == 4 ==> word4(target) =~= target);
}

/// A condition with its body runs as one step.
pub(crate) proof fn lemma_if(op: u8, inner: Seq<u8>, rest: Seq<u8>, e: Env, fuel: nat)
    requires
        fuel > 0,
        e.result is None,
        op == 0xa0 || op == 0xa2,
        inner.len() < 0xfff_0000,
    ensures
        ({
            let code = enclosed_image(seq![op], inner) + rest;
            let (holds, body) = condition(inner, e);
            let after = run(body, e, (fuel - 1) as nat);
            run(code, e, fuel) == (if !holds {
                run(rest, e, (fuel - 1) as nat)
            } else if op == 0xa0 {
                run(rest, after, (fuel - 1) as nat)
            } else {
                run(code, after, (fuel - 1) as nat)
            })
        }),
{
    reveal(enclosed_image);
    let code = enclosed_image(seq![op], inner) + rest;
    law_lengths_read_back(inner, rest);
    assert(code.skip(1) =~= length_image(inner.len()) + inner + rest);
    assert(code[0] == op);
}

pub(crate) proof fn lemma_test_bits(one: u8, rest: Seq<u8>, e: Env)
    requires
        one <= 1,
    ensures
        condition(super::aml::equal_image(cpen(), seq![one]) + rest, e) == (
            e.cpu.stat() as int % 2 == one,
            rest,
        ),
        condition(super::aml::equal_image(cins(), seq![one]) + rest, e) == (
            e.cpu.stat() as int / 2 % 2 == one,
            rest,
        ),
{
    let a = super::aml::equal_image(cpen(), seq![one]) + rest;
    assert(word4(a.skip(1)) =~= cpen());
    assert(a.skip(1).skip(4) =~= seq![one] + rest);
    assert((seq![one] + rest).skip(1) =~= rest);
    let b = super::aml::equal_image(cins(), seq![one]) + rest;
    assert(word4(b.skip(1)) =~= cins());
    assert(b.skip(1).skip(4) =~= seq![one] + rest);
    assert(cins()[1] != cpen()[1]);
}

/// The body of `CSTA`.
spec fn csta_body() -> Seq<u8> {
    acquire_image() + super::aml::store_image(csel(), arg_image(0)) + super::aml::store_image(
        local_image(0),
        seq![0u8],
    ) + super::aml::if_image(
        super::aml::equal_image(cpen(), seq![1u8]),
        super::aml::store_image(local_image(0), seq![0x0au8, 0x0f]),
    ) + release_image() + super::aml::return_image(local_image(0))
}

proof fn lemma_csta_runs(id: u32, cpu: CpuView, fuel: nat)
    requires
        fuel >= 10,
    ensures
        ({
            let e = run(csta_body(), entered(seq![id as int], cpu), fuel);
            &&& e.result == Some(
                if (CpuView { selected: id, ..cpu }).stat() as int % 2 == 1 {
                    15int
                } else {
                    0
                },
            )
            &&& e.held == 0
            &&& e.cpu == (CpuView { selected: id, ..cpu })
        }),
{
    let e0 = entered(seq![id as int], cpu);
    let ret = super::aml::return_image(local_image(0));
    let r5 = release_image() + ret;
    let set = super::aml::store_image(local_image(0), seq![0x0au8, 0x0f]);
    let cond = super::aml::equal_image(cpen(), seq![1u8]);
    let r4 = super::aml::if_image(cond, set) + r5;
    let r3 = super::aml::store_image(local_image(0), seq![0u8]) + r4;
    let r2 = super::aml::store_image(csel(), arg_image(0)) + r3;
    assert(csta_body() =~= acquire_image() + r2);
    lemma_acquire(r2, e0, fuel);
    let e1 = Env { held: 1, ..e0 };
    lemma_store(csel(), 0x68, r3, e1, (fuel - 1) as nat);
    assert(word4(csel()) =~= csel());
    let e2 = Env { cpu: CpuView { selected: id, ..cpu }, ..e1 };
    assert(stored(csel(), id as int, e1).0 == e2);
    lemma_store(local_image(0), 0, r4, e2, (fuel - 2) as nat);
    let e3 = Env { locals: e2.locals.insert(0, 0), ..e2 };
    assert(stored(local_image(0), 0, e2).0 == e3);
    lemma_if(0xa0, cond + set, r5, e3, (fuel - 3) as nat);
    lemma_test_bits(1, set, e3);
    let f = (fuel - 4) as nat;
    let on = e3.cpu.stat() as int % 2 == 1;
    let e4 = if on {
        Env { locals: e3.locals.insert(0, 15), ..e3 }
    } else {
        e3
    };
    if on {
        assert(set[0] == 0x70);
        assert(set.skip(1)[0] == 0x0a && set.skip(1)[1] == 0x0f);
        assert(set.skip(1).skip(2) =~= local_image(0));
        assert(local_image(0).skip(1) =~= Seq::<u8>::empty());
        assert(run(set, e3, f) == run(
            Seq::<u8>::empty(),
            Env { locals: e3.locals.insert(0, 15), ..e3 },
            (f - 1) as nat,
        ));
        assert(run(set, e3, f) == e4);
    }
    lemma_release(ret, e4, f);
    let e5 = Env { held: 0, ..e4 };
    assert(ret[0] == 0xa4);
    assert(ret.skip(1)[0] == 0x60);
}

/// Objects of code that holds other code are found in the whole.
pub(crate) proof fn lemma_object(
    a: Seq<u8>,
    op: Seq<u8>,
    name: Seq<u8>,
    body: Seq<u8>,
    z: Seq<u8>,
)
    requires
        name.len() + body.len() < 0xfff_0000,
    ensures
        object_at(a + enclosed_image(op, name + body) + z, a.len() as int, op, name, body),
{
    reveal(enclosed_image);
    let inner = name + body;
    let code = a + enclosed_image(op, inner) + z;
    let at = a.len() as int;
    let from = at + op.len();
    law_lengths_read_back(inner, z);
    assert(code.skip(from) =~= length_image(inner.len()) + inner + z);
    assert(code.subrange(at, from) =~= op);
    let size = length_size(code.skip(from));
    let len = length_value(code.skip(from));
    assert(code.subrange(from + size, from + size + name.len()) =~= name);
    assert(code.subrange(from + size + name.len(), from + len) =~= body);
}

/// `CSTA` as it stands in the DSDT tells the guest of every vCPU what the controller says of it:
/// 0xF of one that is enabled, 0 of any other. It leaves that vCPU selected and the lock free.
pub proof fn law_the_guest_sees_which_cpus_are_enabled(n: u32)
    requires
        n <= 4096,
    ensures
        exists|body: Seq<u8>|
            {
                &&& #[trigger] has_method(dsdt_image(n), csta_name(), 9, body)
                &&& forall|id: u32, cpu: CpuView, fuel: nat|
                    fuel >= 10 && cpu.wf() ==> {
                        let e = #[trigger] run(body, entered(seq![id as int], cpu), fuel);
                        &&& e.result == Some(
                            if id < cpu.enabled {
                                15int
                            } else {
                                0
                            },
                        )
                        &&& e.held == 0 && e.cpu.inserting == cpu.inserting
                    }
            },
{
    lemma_names();
    let body = csta_body();
    let head = csta_name() + seq![9u8];
    assert(csta_image() =~= enclosed_image(seq![0x14u8], head + body)) by {
        assert(name_image("CSTA"@) + seq![9u8] + body =~= head + body);
    }
    lemma_if_len();
    lemma_in_dsdt(n);
    let (a, z) = choose|a: Seq<u8>, z: Seq<u8>| #[trigger] (a + csta_image() + z) == dsdt_image(n);
    lemma_object(a, seq![0x14u8], head, body, z);
    assert(object_at(dsdt_image(n), a.len() as int, seq![0x14u8], head, body));
    assert(has_method(dsdt_image(n), csta_name(), 9, body));
    assert forall|id: u32, cpu: CpuView, fuel: nat| fuel >= 10 && cpu.wf() implies {
        let e = #[trigger] run(body, entered(seq![id as int], cpu), fuel);
        &&& e.result == Some(
            if id < cpu.enabled {
                15int
            } else {
                0
            },
        )
        &&& e.held == 0 && e.cpu.inserting == cpu.inserting
    } by {
        lemma_csta_runs(id, cpu, fuel);
    }
}

proof fn lemma_if_len()
    ensures
        csta_body().len() < 200,
{
    lemma_names();
    let set = super::aml::store_image(local_image(0), seq![0x0au8, 0x0f]);
    lemma_enclosed_len(seq![0xa0u8], super::aml::equal_image(cpen(), seq![1u8]) + set);
}

/// Where the methods and the devices of the vCPUs stand in the DSDT.
pub(crate) proof fn lemma_in_dsdt(n: u32)
    requires
        n <= 4096,
    ensures
        exists|a: Seq<u8>, z: Seq<u8>| #[trigger] (a + csta_image() + z) == dsdt_image(n),
        exists|a: Seq<u8>, z: Seq<u8>| #[trigger]
            (a + method_image("CTFY"@, 2, true, ctfy_cases(n as nat)) + z) == dsdt_image(n),
        exists|a: Seq<u8>, z: Seq<u8>| #[trigger] (a + cscn_image(n) + z) == dsdt_image(n),
        exists|a: Seq<u8>, z: Seq<u8>| #[trigger] (a + cpus_image(n as nat) + z) == dsdt_image(n),
        exists|a: Seq<u8>, z: Seq<u8>| #[trigger] (a + super::ged_image() + z) == dsdt_image(n),
        exists|a: Seq<u8>, z: Seq<u8>| #[trigger]
            (a + super::registers_image() + z) == dsdt_image(n),
        exists|a: Seq<u8>| #[trigger] (a + s5_image()) == dsdt_image(n),
{
    reveal(dsdt_image);
    let ids = super::aml::named_image("_HID"@, super::aml::text_image("ACPI0010"@))
        + super::aml::named_image(
        "_CID"@,
        number_image(super::aml::swapped(super::aml::eisa_value("PNP0A05"@)) as u32),
    );
    let regs = super::registers_image();
    let first = ids + regs;
    let tell = method_image("CTFY"@, 2, true, ctfy_cases(n as nat));
    let inner = first + csta_image() + tell + cscn_image(n) + cpus_image(n as nat);
    let ged = super::ged_image();
    let s5 = s5_image();
    let h2 = lemma_enclosed_split(seq![0x5bu8, 0x82], name_image("CPUS"@), inner);
    let container = super::container_image(n);
    assert(container == h2 + inner);
    let h1 = lemma_enclosed_split(seq![0x10u8], name_image("\\_SB_"@), container + ged);
    assert(dsdt_image(n) == h1 + (container + ged) + s5);
    assert(h1 + ((h2 + inner) + ged) + s5 == (h1 + h2) + inner + ged + s5) by {
        lemma_nested(h1, h2, inner, ged, s5);
    }
    lemma_parts(h1 + h2, first, csta_image(), tell, cscn_image(n), cpus_image(n as nat), ged, s5);
    let tail = csta_image() + tell + cscn_image(n) + cpus_image(n as nat) + ged + s5;
    assert((h1 + h2 + ids) + regs + tail == dsdt_image(n)) by {
        let more = tell + cscn_image(n) + cpus_image(n as nat) + ged + s5;
        lemma_first(h1 + h2, ids, regs, csta_image(), more);
        assert(csta_image() + more =~= tail);
    }
}

/// The object `_S5_`.
pub(crate) open spec fn s5_image() -> Seq<u8> {
    super::aml::named_image(
        "_S5_"@,
        enclosed_image(
            seq![0x12u8],
            seq![2u8] + number_image(crate::devices::legacy::S5_TYPE as u32) + number_image(0),
        ),
    )
}

proof fn lemma_first(left: Seq<u8>, ids: Seq<u8>, regs: Seq<u8>, a: Seq<u8>, more: Seq<u8>)
    ensures
        (left + (ids + regs)) + a + more == (left + ids) + regs + (a + more),
{
    assert((left + (ids + regs)) + a + more =~= (left + ids) + regs + (a + more));
}

/// What stands in front of the body of an object.
proof fn lemma_enclosed_split(op: Seq<u8>, name: Seq<u8>, body: Seq<u8>) -> (head: Seq<u8>)
    ensures
        enclosed_image(op, name + body) == head + body,
{
    reveal(enclosed_image);
    let head = op + length_image((name + body).len()) + name;
    assert(enclosed_image(op, name + body) =~= head + body);
    head
}

proof fn lemma_nested(h1: Seq<u8>, h2: Seq<u8>, inner: Seq<u8>, ged: Seq<u8>, end: Seq<u8>)
    ensures
        h1 + ((h2 + inner) + ged) + end == (h1 + h2) + inner + ged + end,
{
    assert(h1 + ((h2 + inner) + ged) + end =~= (h1 + h2) + inner + ged + end);
}

/// Sequences that follow each other, with each of the later ones apart.
proof fn lemma_parts(
    left: Seq<u8>,
    first: Seq<u8>,
    a: Seq<u8>,
    b: Seq<u8>,
    c: Seq<u8>,
    d: Seq<u8>,
    g: Seq<u8>,
    end: Seq<u8>,
)
    ensures
        ({
            let all = left + (first + a + b + c + d) + g + end;
            &&& (left + first) + a + (b + c + d + g + end) == all
            &&& (left + first + a) + b + (c + d + g + end) == all
            &&& (left + first + a + b) + c + (d + g + end) == all
            &&& (left + first + a + b + c) + d + (g + end) == all
            &&& (left + first + a + b + c + d) + g + end == all
        }),
{
    let all = left + (first + a + b + c + d) + g + end;
    let x1 = left + first;
    let x2 = x1 + a;
    let x3 = x2 + b;
    let x4 = x3 + c;
    let x5 = x4 + d;
    assert(left + (first + a + b + c + d) =~= x5);
    assert(all == x5 + g + end);
    assert(x4 + d + (g + end) =~= all);
    assert(x3 + c + (d + g + end) =~= all);
    assert(x2 + b + (c + d + g + end) =~= all);
    assert(x1 + a + (b + c + d + g + end) =~= all);
}

/// Two arguments.
pub open spec fn both(a: int, b: int) -> Seq<int> {
    seq![a, b]
}

/// The four bytes that name the device of a vCPU: `C` and its number in three digits.
pub open spec fn cpu_name(i: int) -> Seq<u8> {
    seq![0x43u8, hex_byte(i / 256), hex_byte(i / 16 % 16), hex_byte(i % 16)]
}

/// A digit of sixteen.
pub open spec fn hex_byte(d: int) -> u8 {
    if d < 10 {
        (0x30 + d) as u8
    } else {
        (0x41 + d - 10) as u8
    }
}

/// No two vCPUs have devices of one name.
pub proof fn law_cpu_names_are_distinct(i: int, k: int)
    requires
        0 <= i < 4096,
        0 <= k < 4096,
        cpu_name(i) == cpu_name(k),
    ensures
        i == k,
{
    assert(cpu_name(i)[1] == cpu_name(k)[1]);
    assert(cpu_name(i)[2] == cpu_name(k)[2]);
    assert(cpu_name(i)[3] == cpu_name(k)[3]);
}

pub(crate) proof fn lemma_cpu_name(i: int)
    requires
        0 <= i < 4096,
    ensures
        name_image(name4_text('C', i)) == cpu_name(i),
{
    reveal(name_image);
    reveal(super::aml::name_ok);
    let t = name4_text('C', i);
    assert(t[0] == 'C');
    assert(name_image(t) =~= cpu_name(i));
}

/// One case of `CTFY`.
spec fn case_image(i: int) -> Seq<u8> {
    super::aml::if_image(
        super::aml::equal_image(arg_image(0), number_image(i as u32)),
        super::aml::notify_image(name_image(name4_text('C', i)), arg_image(1)),
    )
}

proof fn lemma_notify_runs(i: int, e: Env, fuel: nat)
    requires
        0 <= i < 4096,
        fuel >= 2,
        e.result is None,
        e.args.len() == 2,
    ensures
        ({
            let act = super::aml::notify_image(name_image(name4_text('C', i)), arg_image(1));
            run(act, e, fuel) == (Env { told: e.told.push((cpu_name(i), e.args[1])), ..e })
        }),
{
    lemma_cpu_name(i);
    let act = super::aml::notify_image(name_image(name4_text('C', i)), arg_image(1));
    assert(act[0] == 0x86);
    assert(act.skip(5)[0] == 0x69);
    assert(word4(act.skip(1)) =~= cpu_name(i));
    assert(act.skip(5).skip(1) =~= Seq::<u8>::empty());
    let e2 = Env { told: e.told.push((cpu_name(i), e.args[1])), ..e };
    assert(run(act, e, fuel) == run(Seq::<u8>::empty(), e2, (fuel - 1) as nat));
}

proof fn lemma_case_runs(i: int, rest: Seq<u8>, e: Env, fuel: nat)
    requires
        0 <= i < 4096,
        fuel >= 4,
        e.result is None,
        e.args.len() == 2,
    ensures
        run(case_image(i) + rest, e, fuel) == run(
            rest,
            Env {
                told: if e.args[0] == i {
                    e.told.push((cpu_name(i), e.args[1]))
                } else {
                    e.told
                },
                ..e
            },
            (fuel - 1) as nat,
        ),
{
    let cond = super::aml::equal_image(arg_image(0), number_image(i as u32));
    let act = super::aml::notify_image(name_image(name4_text('C', i)), arg_image(1));
    let inner = cond + act;
    assert(act.len() == 6 && inner.len() <= 20) by {
        lemma_number_len(i as u32);
        lemma_cpu_name(i);
    }
    lemma_if(0xa0, inner, rest, e, fuel);
    assert(condition(inner, e) == (e.args[0] == i, act)) by {
        assert(inner[0] == 0x93);
        assert(inner.skip(1)[0] == 0x68);
        assert(inner.skip(1).skip(1) =~= number_image(i as u32) + act);
        law_numbers_read_back(i as u32, act, e);
    }
    if e.args[0] == i {
        lemma_notify_runs(i, e, (fuel - 1) as nat);
    }
}

/// The cases of `CTFY` notify the device of the vCPU that the first argument names, with the second
/// one, and no other.
proof fn lemma_cases_run(n: nat, rest: Seq<u8>, e: Env, fuel: nat)
    requires
        n <= 4096,
        fuel >= n + 4,
        e.result is None,
        e.args.len() == 2,
    ensures
        run(ctfy_cases(n) + rest, e, fuel) == run(
            rest,
            Env {
                told: if 0 <= e.args[0] < n {
                    e.told.push((cpu_name(e.args[0]), e.args[1]))
                } else {
                    e.told
                },
                ..e
            },
            (fuel - n) as nat,
        ),
    decreases n,
{
    if n == 0 {
        assert(ctfy_cases(0) + rest =~= rest);
    } else {
        let i = n - 1;
        let before = ctfy_cases(i as nat);
        let case = case_image(i);
        assert(ctfy_cases(n) == before + case);
        assert((before + case) + rest =~= before + (case + rest));
        lemma_cases_run(i as nat, case + rest, e, fuel);
        let e1 = Env {
            told: if 0 <= e.args[0] < i {
                e.told.push((cpu_name(e.args[0]), e.args[1]))
            } else {
                e.told
            },
            ..e
        };
        lemma_case_runs(i, rest, e1, (fuel - i) as nat);
    }
}

pub(crate) proof fn lemma_number_len(n: u32)
    ensures
        1 <= number_image(n).len() <= 5,
{
    reveal(number_image);
    lemma_le_bytes_len(n as nat, 2);
    lemma_le_bytes_len(n as nat, 4);
}

proof fn lemma_cases_len(n: nat)
    requires
        n <= 4096,
    ensures
        ctfy_cases(n).len() <= 40 * n,
    decreases n,
{
    if n > 0 {
        let i = n - 1;
        lemma_cases_len(i as nat);
        let cond = super::aml::equal_image(arg_image(0), number_image(i as u32));
        let act = super::aml::notify_image(name_image(name4_text('C', i)), arg_image(1));
        lemma_number_len(i as u32);
        lemma_cpu_name(i);
        lemma_enclosed_len(seq![0xa0u8], cond + act);
    }
}

/// `CTFY` as it stands in the DSDT notifies the device of the vCPU that it is called for, and no
/// other, with the event that it is called with.
pub proof fn law_notifications_reach_their_cpu(n: u32)
    requires
        n <= 4096,
    ensures
        exists|body: Seq<u8>|
            {
                &&& #[trigger] has_method(dsdt_image(n), ctfy_name(), 10, body)
                &&& forall|id: int, event: int, cpu: CpuView, fuel: nat|
                    fuel >= n + 4 && 0 <= id < n ==> {
                        let e = #[trigger] run(body, entered(both(id, event), cpu), fuel);
                        &&& e.told == seq![(cpu_name(id), event)]
                        &&& e.cpu == cpu
                    }
            },
{
    lemma_names();
    let body = ctfy_cases(n as nat);
    let head = ctfy_name() + seq![10u8];
    lemma_cases_len(n as nat);
    lemma_in_dsdt(n);
    let tell = method_image("CTFY"@, 2, true, body);
    let (a, z) = choose|a: Seq<u8>, z: Seq<u8>| #[trigger] (a + tell + z) == dsdt_image(n);
    lemma_object(a, seq![0x14u8], head, body, z);
    assert(object_at(dsdt_image(n), a.len() as int, seq![0x14u8], head, body));
    assert(has_method(dsdt_image(n), ctfy_name(), 10, body));
    assert forall|id: int, event: int, cpu: CpuView, fuel: nat|
        fuel >= n + 4 && 0 <= id < n implies {
        let e = #[trigger] run(body, entered(both(id, event), cpu), fuel);
        &&& e.told == seq![(cpu_name(id), event)]
        &&& e.cpu == cpu
    } by {
        let e = entered(both(id, event), cpu);
        lemma_cases_run(n as nat, Seq::empty(), e, fuel);
        assert(body + Seq::<u8>::empty() =~= body);
        assert(Seq::<(Seq<u8>, int)>::empty().push((cpu_name(id), event)) =~= seq![
            (cpu_name(id), event),
        ]);
    }
}

} // verus!
