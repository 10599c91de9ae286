//! Little-endian numbers in byte sequences, stated arithmetically.

use vstd::prelude::*;

verus! {

/// The value of the little-endian bytes `s[at..at + n]`.
pub open spec fn le_at(s: Seq<u8>, at: int, n: nat) -> nat
    decreases n,
{
    if n == 0 {
        0
    } else {
        s[at] as nat + 256 * le_at(s, at + 1, (n - 1) as nat)
    }
}

/// The `n` low bytes of `v`, least significant first.
pub open spec fn le_bytes(v: nat, n: nat) -> Seq<u8>
    decreases n,
{
    if n == 0 {
        Seq::<u8>::empty()
    } else {
        seq![(v % 256) as u8] + le_bytes(v / 256, (n - 1) as nat)
    }
}

/// The bound of an `n`-byte value: 256 to the power of `n`.
pub open spec fn le_bound(n: nat) -> nat
    decreases n,
{
    if n == 0 {
        1
    } else {
        256 * le_bound((n - 1) as nat)
    }
}

/// `le_bytes` has the length it is asked for.
pub proof fn lemma_le_bytes_len(v: nat, n: nat)
    ensures
        le_bytes(v, n).len() == n,
    decreases n,
{
    if n > 0 {
        lemma_le_bytes_len(v / 256, (n - 1) as nat);
    }
}

/// A value read back from a sequence holding its bytes at `at` is the value itself.
pub proof fn lemma_le_round_trip(s: Seq<u8>, at: int, v: nat, n: nat)
    requires
        v < le_bound(n),
        0 <= at,
        at + n <= s.len(),
        s.subrange(at, at + n) == le_bytes(v, n),
    ensures
        le_at(s, at, n) == v,
    decreases n,
{
    lemma_le_bytes_len(v, n);
    if n > 0 {
        let m = (n - 1) as nat;
        lemma_le_bytes_len(v / 256, m);
        assert(s[at] == s.subrange(at, at + n)[0]);
        assert(s.subrange(at + 1, at + 1 + m) =~= s.subrange(at, at + n).subrange(1, n as int));
        assert(le_bytes(v, n).subrange(1, n as int) =~= le_bytes(v / 256, m));
        lemma_le_round_trip(s, at + 1, v / 256, m);
    }
}

/// The bytes of a value read from a sequence are the bytes it was read from.
pub proof fn lemma_le_bytes_of_value(s: Seq<u8>, at: int, n: nat)
    requires
        0 <= at,
        at + n <= s.len(),
    ensures
        le_bytes(le_at(s, at, n), n) == s.subrange(at, at + n),
        le_at(s, at, n) < le_bound(n),
    decreases n,
{
    if n == 0 {
        assert(s.subrange(at, at + n) =~= Seq::<u8>::empty());
    } else {
        let m = (n - 1) as nat;
        lemma_le_bytes_of_value(s, at + 1, m);
        let rest = le_at(s, at + 1, m);
        let v = le_at(s, at, n);
        assert(v % 256 == s[at] as nat && v / 256 == rest);
        assert(s.subrange(at, at + n) =~= seq![s[at]] + s.subrange(at + 1, at + 1 + m));
    }
}

/// `s[at..at + n]` lies in `s` unchanged by what follows it.
pub proof fn lemma_le_at_same(s: Seq<u8>, t: Seq<u8>, at: int, n: nat)
    requires
        0 <= at,
        at + n <= s.len(),
        at + n <= t.len(),
        s.subrange(at, at + n) == t.subrange(at, at + n),
    ensures
        le_at(s, at, n) == le_at(t, at, n),
    decreases n,
{
    if n > 0 {
        assert(s[at] == s.subrange(at, at + n)[0]);
        assert(t[at] == t.subrange(at, at + n)[0]);
        let m = (n - 1) as nat;
        assert(s.subrange(at + 1, at + 1 + m) =~= s.subrange(at, at + n).subrange(1, n as int));
        assert(t.subrange(at + 1, at + 1 + m) =~= t.subrange(at, at + n).subrange(1, n as int));
        lemma_le_at_same(s, t, at + 1, m);
    }
}

/// The 16-bit number at `at`.
pub fn u16_at(b: &[u8], at: usize) -> (v: u16)
    requires
        at + 2 <= b@.len(),
    ensures
        v == le_at(b@, at as int, 2),
{
    reveal_with_fuel(le_at, 3);
    b[at] as u16 + 256 * b[at + 1] as u16
}

/// The 32-bit number at `at`.
pub fn u32_at(b: &[u8], at: usize) -> (v: u32)
    requires
        at + 4 <= b@.len(),
    ensures
        v == le_at(b@, at as int, 4),
{
    reveal_with_fuel(le_at, 5);
    b[at] as u32 + 256 * (b[at + 1] as u32 + 256 * (b[at + 2] as u32 + 256 * b[at + 3] as u32))
}

/// The 64-bit number at `at`.
pub fn u64_at(b: &[u8], at: usize) -> (v: u64)
    requires
        at + 8 <= b@.len(),
    ensures
        v == le_at(b@, at as int, 8),
{
    assert(at + 8 <= b.len());
    let lo = u32_at(b, at);
    let hi = u32_at(b, at + 4);
    reveal_with_fuel(le_at, 9);
    lo as u64 + 0x1_0000_0000 * hi as u64
}

/// Append the `n` low bytes of `v`.
pub fn push_le(out: &mut Vec<u8>, v: u64, n: usize)
    ensures
        final(out)@ == old(out)@ + le_bytes(v as nat, n as nat),
{
    let mut rest: u64 = v;
    let mut left: usize = n;
    while left > 0
        invariant
            left <= n,
            out@ + le_bytes(rest as nat, left as nat) == old(out)@ + le_bytes(v as nat, n as nat),
        decreases left,
    {
        let ghost before = out@;
        out.push((rest % 256) as u8);
        assert(out@ + le_bytes(rest as nat / 256, (left - 1) as nat) =~= before + le_bytes(
            rest as nat,
            left as nat,
        ));
        rest = rest / 256;
        left -= 1;
    }
    assert(out@ + le_bytes(rest as nat, 0) =~= out@);
}

} // verus!
