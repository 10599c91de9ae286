//! What the guest's scan for inserted vCPUs does.

use super::aml::{
    add_image, enclosed_image, equal_image, if_image, lemma_enclosed_len, less_image, local_image,
    method_image, number_image, store_image, while_image,
};
use super::run::{
    cins, cscn_name, csel, ctfy_name, entered, has_method, law_numbers_read_back, lemma_acquire,
    lemma_if, lemma_in_dsdt, lemma_names, lemma_number_len, lemma_object, lemma_release,
    lemma_store, lemma_test_bits, object_at, run, stored, condition, word4, Env,
};
use super::{acquire_image, cscn_image, dsdt_image, release_image};
use crate::devices::cpu_hotplug::CpuView;
use vstd::prelude::*;

verus! {

/// What is done for an inserted vCPU.
spec fn act_code() -> Seq<u8> {
    ctfy_name() + local_image(0) + seq![1u8] + store_image(cins(), seq![1u8])
}

/// What is done for every vCPU.
spec fn turn_code() -> Seq<u8> {
    store_image(csel(), local_image(0)) + if_image(equal_image(cins(), seq![1u8]), act_code())
        + add_image(local_image(0), local_image(0), seq![1u8])
}

/// The state after the turn of vCPU `i`.
spec fn turned(e: Env, i: int) -> Env {
    let c = CpuView { selected: i as u32, ..e.cpu };
    let inserted = c.stat() as int / 2 % 2 == 1;
    Env {
        cpu: if inserted {
            c.seen()
        } else {
            c
        },
        called: if inserted {
            e.called.push((i, 1))
        } else {
            e.called
        },
        locals: e.locals.insert(0, i + 1),
        ..e
    }
}

/// The state after the turns of the vCPUs from `i` to `n`.
spec fn scanned(e: Env, i: int, n: int) -> Env
    decreases n - i,
{
    if i >= n {
        e
    } else {
        scanned(turned(e, i), i + 1, n)
    }
}

proof fn lemma_act(i: int, e: Env, fuel: nat)
    requires
        fuel >= 3,
        e.result is None,
        e.locals[0] == i,
    ensures
        run(act_code(), e, fuel) == (Env {
            called: e.called.push((i, 1)),
            cpu: e.cpu.seen(),
            ..e
        }),
{
    let code = act_code();
    let more = store_image(cins(), seq![1u8]);
    assert(code[0] == 0x43);
    assert(word4(code) =~= ctfy_name());
    assert(code.skip(4)[0] == 0x60);
    assert(code.skip(4).skip(1)[0] == 1);
    assert(code.skip(4).skip(1).skip(1) =~= more);
    let e1 = Env { called: e.called.push((i, 1)), ..e };
    assert(run(code, e, fuel) == run(more, e1, (fuel - 1) as nat));
    lemma_store(cins(), 1, Seq::empty(), e1, (fuel - 1) as nat);
    assert(more + Seq::<u8>::empty() =~= more);
    assert(word4(cins()) =~= cins());
    assert(cins()[1] != csel()[1]);
}

proof fn lemma_turn(i: int, e: Env, fuel: nat)
    requires
        fuel >= 8,
        e.result is None,
        0 <= i <= u32::MAX,
        e.locals[0] == i,
    ensures
        run(turn_code(), e, fuel) == turned(e, i),
{
    let add = add_image(local_image(0), local_image(0), seq![1u8]);
    let cond = equal_image(cins(), seq![1u8]);
    let r2 = if_image(cond, act_code()) + add;
    assert(turn_code() =~= store_image(csel(), local_image(0)) + r2);
    lemma_store(csel(), 0x60, r2, e, fuel);
    assert(word4(csel()) =~= csel());
    let e1 = Env { cpu: CpuView { selected: i as u32, ..e.cpu }, ..e };
    assert(stored(csel(), i, e).0 == e1);
    assert(cond.len() + act_code().len() < 100);
    lemma_if(0xa0, cond + act_code(), add, e1, (fuel - 1) as nat);
    lemma_test_bits(1, act_code(), e1);
    let inserted = e1.cpu.stat() as int / 2 % 2 == 1;
    if inserted {
        lemma_act(i, e1, (fuel - 2) as nat);
    }
    let e2 = if inserted {
        Env { called: e1.called.push((i, 1)), cpu: e1.cpu.seen(), ..e1 }
    } else {
        e1
    };
    assert(add[0] == 0x72);
    assert(add.skip(1)[0] == 0x60);
    assert(add.skip(1).skip(1)[0] == 1);
    let last = add.skip(1).skip(1).skip(1);
    assert(last =~= local_image(0));
    assert(last[0] == 0x60);
    assert(last.skip(1) =~= Seq::<u8>::empty());
    let f = (fuel - 2) as nat;
    let e3 = Env { locals: e2.locals.insert(0, i + 1), ..e2 };
    assert(run(add, e2, f) == run(Seq::<u8>::empty(), e3, (f - 1) as nat));
}

proof fn lemma_loop(i: int, n: u32, rest: Seq<u8>, e: Env, fuel: nat)
    requires
        0 <= i <= n,
        fuel >= n - i + 10,
        e.result is None,
        e.locals[0] == i,
    ensures
        run(
            while_image(less_image(local_image(0), number_image(n)), turn_code()) + rest,
            e,
            fuel,
        ) == run(rest, scanned(e, i, n as int), (fuel - (n - i) - 1) as nat),
        scanned(e, i, n as int).result is None,
    decreases n - i,
{
    let cond = less_image(local_image(0), number_image(n));
    let inner = cond + turn_code();
    lemma_turn_len();
    lemma_number_len(n);
    lemma_if(0xa2, inner, rest, e, fuel);
    assert(condition(inner, e) == (i < n, turn_code())) by {
        assert(inner[0] == 0x95);
        assert(inner.skip(1)[0] == 0x60);
        assert(inner.skip(1).skip(1) =~= number_image(n) + turn_code());
        law_numbers_read_back(n, turn_code(), e);
    }
    if i < n {
        lemma_turn(i, e, (fuel - 1) as nat);
        lemma_loop(i + 1, n, rest, turned(e, i), (fuel - 1) as nat);
    }
}

proof fn lemma_turn_len()
    ensures
        turn_code().len() < 120,
{
    let inner = equal_image(cins(), seq![1u8]) + act_code();
    lemma_enclosed_len(seq![0xa0u8], inner);
}

/// Whether these calls pass on, in order and each once, the vCPUs below `i` that are marked.
pub open spec fn passed_on(called: Seq<(int, int)>, marks: Seq<bool>, i: int) -> bool {
    &&& forall|k: int|
        0 <= k < called.len() ==> (#[trigger] called[k]).1 == 1 && 0 <= called[k].0 < i
            && marks[called[k].0]
    &&& forall|a: int, b: int|
        0 <= a < b < called.len() ==> (#[trigger] called[a]).0 < (#[trigger] called[b]).0
    &&& forall|id: int| 0 <= id < i && #[trigger] marks[id] ==> called.contains((id, 1int))
}

proof fn lemma_scanned(e: Env, marks: Seq<bool>, i: int, n: int)
    requires
        0 <= i <= n <= u32::MAX,
        e.cpu.wf(),
        marks.len() == n,
        e.cpu.inserting.len() == n,
        forall|k: int| 0 <= k < i ==> !#[trigger] e.cpu.inserting[k],
        forall|k: int| i <= k < n ==> #[trigger] e.cpu.inserting[k] == marks[k],
        passed_on(e.called, marks, i),
    ensures
        ({
            let r = scanned(e, i, n);
            &&& passed_on(r.called, marks, n)
            &&& r.cpu.wf() && r.cpu.enabled == e.cpu.enabled && r.cpu.inserting.len() == n
            &&& forall|k: int| 0 <= k < n ==> !#[trigger] r.cpu.inserting[k]
            &&& r.held == e.held && r.told == e.told
        }),
    decreases n - i,
{
    if i < n {
        let t = turned(e, i);
        let c = CpuView { selected: i as u32, ..e.cpu };
        assert(e.cpu.inserting[i] ==> i < e.cpu.enabled);
        assert((c.stat() as int / 2 % 2 == 1) == marks[i]);
        if marks[i] {
            assert(t.called[e.called.len() as int] == (i, 1int));
            assert forall|id: int| 0 <= id < i + 1 && #[trigger] marks[id] implies t.called.contains(
                (id, 1int),
            ) by {
                if id < i {
                    let k = choose|k: int| 0 <= k < e.called.len() && e.called[k] == (id, 1int);
                    assert(t.called[k] == (id, 1int));
                }
            }
        }
        assert(passed_on(t.called, marks, i + 1));
        lemma_scanned(t, marks, i + 1, n);
    }
}

/// `CSCN` as it stands in the DSDT passes a device check on for every vCPU that was inserted, in
/// their order and for no other, and leaves none of them marked and the lock free.
pub proof fn law_the_scan_finds_what_was_inserted(n: u32)
    requires
        n <= 4096,
    ensures
        exists|body: Seq<u8>|
            {
                &&& #[trigger] has_method(dsdt_image(n), cscn_name(), 8, body)
                &&& forall|cpu: CpuView, fuel: nat|
                    fuel >= n + 20 && cpu.wf() && cpu.inserting.len() == n ==> {
                        let e = #[trigger] run(body, entered(Seq::empty(), cpu), fuel);
                        &&& passed_on(e.called, cpu.inserting, n as int)
                        &&& e.cpu.enabled == cpu.enabled && e.cpu.inserting.len() == n
                        &&& forall|k: int| 0 <= k < n ==> !#[trigger] e.cpu.inserting[k]
                        &&& e.held == 0
                    }
            },
{
    lemma_names();
    let cond = less_image(local_image(0), number_image(n));
    let body = scan_code(n);
    let head = cscn_name() + seq![8u8];
    assert(cscn_image(n) == method_image("CSCN"@, 0, true, body));
    lemma_turn_len();
    lemma_number_len(n);
    lemma_enclosed_len(seq![0xa2u8], cond + turn_code());
    lemma_in_dsdt(n);
    let (a, z) = choose|a: Seq<u8>, z: Seq<u8>| #[trigger] (a + cscn_image(n) + z) == dsdt_image(n);
    assert(cscn_image(n) == enclosed_image(seq![0x14u8], head + body));
    lemma_object(a, seq![0x14u8], head, body, z);
    assert(object_at(dsdt_image(n), a.len() as int, seq![0x14u8], head, body));
    assert(has_method(dsdt_image(n), cscn_name(), 8, body));
    assert forall|cpu: CpuView, fuel: nat|
        fuel >= n + 20 && cpu.wf() && cpu.inserting.len() == n implies {
        let e = #[trigger] run(body, entered(Seq::empty(), cpu), fuel);
        &&& passed_on(e.called, cpu.inserting, n as int)
        &&& e.cpu.enabled == cpu.enabled && e.cpu.inserting.len() == n
        &&& forall|k: int| 0 <= k < n ==> !#[trigger] e.cpu.inserting[k]
        &&& e.held == 0
    } by {
        lemma_scan(n, cpu, fuel);
    }
}

/// What the body of `CSCN` does.
proof fn lemma_scan(n: u32, cpu: CpuView, fuel: nat)
    requires
        fuel >= n + 20,
        cpu.wf(),
        cpu.inserting.len() == n,
    ensures
        ({
            let e = run(scan_code(n), entered(Seq::empty(), cpu), fuel);
            &&& passed_on(e.called, cpu.inserting, n as int)
            &&& e.cpu.enabled == cpu.enabled && e.cpu.inserting.len() == n
            &&& forall|k: int| 0 <= k < n ==> !#[trigger] e.cpu.inserting[k]
            &&& e.held == 0
        }),
{
    let start = store_image(local_image(0), seq![0u8]);
    let scan = while_image(less_image(local_image(0), number_image(n)), turn_code());
    let e0 = entered(Seq::empty(), cpu);
    let r2 = scan + release_image();
    let r1 = start + r2;
    lemma_four_parts(acquire_image(), start, scan, release_image());
    lemma_acquire(r1, e0, fuel);
    let e1 = Env { held: 1, ..e0 };
    lemma_store(local_image(0), 0, r2, e1, (fuel - 1) as nat);
    let e2 = Env { locals: e1.locals.insert(0, 0), ..e1 };
    assert(stored(local_image(0), 0, e1).0 == e2);
    lemma_loop(0, n, release_image(), e2, (fuel - 2) as nat);
    let e3 = scanned(e2, 0, n as int);
    lemma_scanned(e2, cpu.inserting, 0, n as int);
    let f = (fuel - 2 - n - 1) as nat;
    lemma_release(Seq::empty(), e3, f);
    assert(release_image() + Seq::<u8>::empty() =~= release_image());
}

proof fn lemma_four_parts(a: Seq<u8>, b: Seq<u8>, c: Seq<u8>, d: Seq<u8>)
    ensures
        a + b + c + d == a + (b + (c + d)),
{
    assert(a + b + c + d =~= a + (b + (c + d)));
}

/// The body of `CSCN`.
spec fn scan_code(n: u32) -> Seq<u8> {
    acquire_image() + store_image(local_image(0), seq![0u8]) + while_image(
        less_image(local_image(0), number_image(n)),
        turn_code(),
    ) + release_image()
}

} // verus!
