//! Where the ACPI tables lead a guest, and what it reads there.

use super::{
    fadt_body, fadt_image, lapics_image, lemma_lapics_len, lemma_table_lens, madt_image, maker,
    root_pointer, sealed, tables_placed, zeros, Placed,
};
use crate::bytes::{le_at, le_bytes, lemma_le_bytes_len, lemma_le_round_trip};
use vstd::prelude::*;

verus! {

/// A number written at `at` is read there.
proof fn lemma_reads(a: Seq<u8>, v: nat, n: nat, z: Seq<u8>)
    requires
        v < crate::bytes::le_bound(n),
    ensures
        le_at(a + le_bytes(v, n) + z, a.len() as int, n) == v,
        (a + le_bytes(v, n) + z).len() == a.len() + n + z.len(),
{
    lemma_le_bytes_len(v, n);
    let all = a + le_bytes(v, n) + z;
    assert(all.subrange(a.len() as int, (a.len() + n) as int) =~= le_bytes(v, n));
    lemma_le_round_trip(all, a.len() as int, v, n);
}

proof fn lemma_bounds()
    ensures
        crate::bytes::le_bound(4) == 0x1_0000_0000,
        crate::bytes::le_bound(8) == 0x1_0000_0000_0000_0000,
{
    reveal_with_fuel(crate::bytes::le_bound, 9);
}

proof fn lemma_lapic_at(cpus: u32, n: nat, i: int)
    requires
        0 <= i < n,
    ensures
        lapics_image(cpus, n).subrange(8 * i, 8 * i + 8) == seq![
            0u8,
            8,
            (i % 256) as u8,
            (i % 256) as u8,
            if i < cpus {
                1
            } else {
                2
            },
            0,
            0,
            0,
        ],
    decreases n,
{
    lemma_lapics_len(cpus, n);
    lemma_lapics_len(cpus, (n - 1) as nat);
    let all = lapics_image(cpus, n);
    let before = lapics_image(cpus, (n - 1) as nat);
    if i < n - 1 {
        lemma_lapic_at(cpus, (n - 1) as nat, i);
        assert(all.subrange(8 * i, 8 * i + 8) =~= before.subrange(8 * i, 8 * i + 8));
    } else {
        assert(all.subrange(8 * i, 8 * i + 8) =~= seq![
            0u8,
            8,
            (i % 256) as u8,
            (i % 256) as u8,
            if i < cpus {
                1
            } else {
                2
            },
            0,
            0,
            0,
        ]);
    }
}

/// The MADT lists every vCPU that there can be under its own number: those that the guest boots with
/// as enabled (1), and the others as ones that can be enabled later (2). Then it gives the interrupt
/// controller at 0xfec0_0000, whose interrupts are numbered from 0.
pub proof fn law_the_madt_lists_every_cpu(cpus: u32, cpus_max: u32, i: int)
    requires
        0 <= i < cpus_max,
        cpus_max <= 4096,
    ensures
        ({
            let m = madt_image(cpus, cpus_max);
            let end = 8 + 8 * cpus_max;
            &&& m.len() == end + 12
            &&& le_at(m, 0, 4) == 0xfee0_0000
            &&& m.subrange(8 + 8 * i, 16 + 8 * i) == seq![
                0u8,
                8,
                (i % 256) as u8,
                (i % 256) as u8,
                if i < cpus {
                    1
                } else {
                    2
                },
                0,
                0,
                0,
            ]
            &&& m[end] == 1 && m[end + 1] == 12
            &&& le_at(m, end + 4, 4) == 0xfec0_0000
            &&& le_at(m, end + 8, 4) == 0
        }),
{
    let m = madt_image(cpus, cpus_max);
    let end = 8 + 8 * cpus_max;
    let lapics = lapics_image(cpus, cpus_max as nat);
    lemma_lapics_len(cpus, cpus_max as nat);
    lemma_bounds();
    let none = Seq::<u8>::empty();
    let first = le_bytes(0xfee0_0000, 4);
    let id = seq![1u8, 12, (cpus_max % 256) as u8, 0];
    let addr = le_bytes(0xfec0_0000, 4);
    let gsi = le_bytes(0, 4);
    lemma_le_bytes_len(0xfee0_0000, 4);
    lemma_le_bytes_len(0xfec0_0000, 4);
    lemma_le_bytes_len(0, 4);
    let pad = seq![0u8, 0, 0, 0];
    assert(m =~= first + pad + lapics + (id + addr + gsi));
    lemma_reads(none, 0xfee0_0000, 4, pad + lapics + (id + addr + gsi));
    assert(m =~= none + first + (pad + lapics + (id + addr + gsi)));
    lemma_reads(first + pad + lapics + id, 0xfec0_0000, 4, gsi);
    assert(m =~= (first + pad + lapics + id) + addr + gsi);
    lemma_reads(first + pad + lapics + id + addr, 0, 4, none);
    assert(m =~= (first + pad + lapics + id + addr) + gsi + none);
    lemma_lapic_at(cpus, cpus_max as nat, i);
    assert(m.subrange(8 + 8 * i, 16 + 8 * i) =~= lapics.subrange(8 * i, 8 * i + 8));
}

/// The FADT says where the guest's registers are: it has hardware-reduced ACPI and a reset register,
/// which is the port 0x602 and takes a 1; sleep is controlled at the port 0x600 and read at 0x601;
/// and the DSDT is where it stands.
pub proof fn law_the_fadt_points_at_the_registers(dsdt: u64)
    ensures
        ({
            let f = fadt_body(dsdt);
            &&& f.len() == 240
            &&& le_at(f, 76, 4) / 0x10_0000 % 2 == 1 && le_at(f, 76, 4) / 0x400 % 2 == 1
            &&& f[80] == 1 && le_at(f, 84, 8) == 0x602 && f[92] == 1
            &&& f[208] == 1 && le_at(f, 212, 8) == 0x600
            &&& f[220] == 1 && le_at(f, 224, 8) == 0x601
            &&& le_at(f, 104, 8) == dsdt
        }),
{
    reveal(fadt_image);
    lemma_bounds();
    let f = fadt_body(dsdt);
    let none = Seq::<u8>::empty();
    let flags = le_bytes(0x10_0430, 4);
    let head = seq![1u8, 8, 0, 1];
    let reset = le_bytes(0x602, 8);
    let p = seq![1u8, 0, 0, 5];
    let d = le_bytes(dsdt as nat, 8);
    let control = le_bytes(0x600, 8);
    let status = le_bytes(0x601, 8);
    let vendor = le_bytes(super::VENDOR as nat, 8);
    lemma_le_bytes_len(0x10_0430, 4);
    lemma_le_bytes_len(0x602, 8);
    lemma_le_bytes_len(dsdt as nat, 8);
    lemma_le_bytes_len(0x600, 8);
    lemma_le_bytes_len(0x601, 8);
    lemma_le_bytes_len(super::VENDOR as nat, 8);
    let t4 = head + status + vendor;
    let t3 = head + control + t4;
    let t2 = d + zeros(96) + t3;
    let t1 = head + reset + p + zeros(8) + t2;
    let s1 = zeros(76);
    let s2 = s1 + flags + head;
    let s3 = s2 + reset + p + zeros(8);
    let s4 = s3 + d + zeros(96) + head;
    let s5 = s4 + control + head;
    assert(f =~= s1 + flags + t1);
    assert(f =~= s2 + reset + (p + zeros(8) + t2));
    assert(f =~= s3 + d + (zeros(96) + t3));
    assert(f =~= s4 + control + t4);
    assert(f =~= s5 + status + vendor);
    lemma_reads(s1, 0x10_0430, 4, t1);
    lemma_reads(s2, 0x602, 8, p + zeros(8) + t2);
    lemma_reads(s3, dsdt as nat, 8, zeros(96) + t3);
    lemma_reads(s4, 0x600, 8, t4);
    lemma_reads(s5, 0x601, 8, vendor);
}

/// What the head of a table says: its signature and its length.
proof fn lemma_head(t: Seq<u8>, signature: Seq<u8>, revision: u8, by: Seq<u8>, body: Seq<u8>)
    requires
        sealed(t, signature, revision, by, body),
        signature.len() == 4,
        by.len() == 18,
        body.len() < 0x1000_0000,
    ensures
        t.take(4) == signature,
        le_at(t, 4, 4) == t.len(),
        t.skip(36) == body,
        t[8] == revision,
{
    reveal(sealed);
    lemma_bounds();
    let len = le_bytes(36 + body.len(), 4);
    lemma_le_bytes_len(36 + body.len(), 4);
    let rest = seq![revision, t[9]] + by + seq![0x52u8, 0x56, 0x41, 0x54, 0, 0, 0, 1] + body;
    assert(t =~= signature + len + rest);
    lemma_reads(signature, 36 + body.len(), 4, rest);
    assert(t.take(4) =~= signature);
    assert(t.skip(36) =~= body);
}

/// From the root pointer the guest gets to every table: the root pointer gives the XSDT, the XSDT
/// the FADT, the MADT and the DSDT, and the FADT the DSDT; each stands where it is said to, under its
/// signature and with its length.
pub proof fn law_the_tables_lead_to_each_other(t: Seq<Placed>, cpus: u32, cpus_max: u32)
    requires
        tables_placed(t, cpus, cpus_max),
        super::tables_end(cpus_max) <= 0x10_0000,
    ensures
        ({
            let (rsdp, xsdt, fadt, dsdt, madt) = (t[0].1@, t[1].1@, t[2].1@, t[3].1@, t[4].1@);
            &&& t[0].0 == 0xe_0000
            &&& rsdp.take(8) == seq![0x52u8, 0x53, 0x44, 0x20, 0x50, 0x54, 0x52, 0x20]
            &&& le_at(rsdp, 24, 8) == t[1].0
            &&& xsdt.take(4) == seq![0x58u8, 0x53, 0x44, 0x54] && le_at(xsdt, 4, 4) == xsdt.len()
            &&& le_at(xsdt, 36, 8) == t[2].0 && le_at(xsdt, 44, 8) == t[4].0 && le_at(xsdt, 52, 8)
                == t[3].0
            &&& fadt.take(4) == seq![0x46u8, 0x41, 0x43, 0x50] && le_at(fadt, 4, 4) == fadt.len()
            &&& le_at(fadt, 140, 8) == t[3].0
            &&& dsdt.take(4) == seq![0x44u8, 0x53, 0x44, 0x54] && le_at(dsdt, 4, 4) == dsdt.len()
            &&& madt.take(4) == seq![0x41u8, 0x50, 0x49, 0x43] && le_at(madt, 4, 4) == madt.len()
        }),
{
    lemma_table_lens(t, cpus, cpus_max);
    lemma_bounds();
    let by = maker(super::OEM_ID@, super::OEM_TABLE@, super::OEM_REV);
    lemma_le_bytes_len(super::OEM_REV as nat, 4);
    assert(by.len() == 18);
    let (rsdp, xsdt, fadt, dsdt, madt) = (t[0].1@, t[1].1@, t[2].1@, t[3].1@, t[4].1@);
    let a = le_bytes(t[2].0 as nat, 8);
    let b = le_bytes(t[4].0 as nat, 8);
    let c = le_bytes(t[3].0 as nat, 8);
    lemma_le_bytes_len(t[2].0 as nat, 8);
    lemma_le_bytes_len(t[4].0 as nat, 8);
    lemma_le_bytes_len(t[3].0 as nat, 8);
    assert(root_pointer(rsdp, super::OEM_ID@, t[1].0) && sealed(
        xsdt,
        seq![0x58u8, 0x53, 0x44, 0x54],
        1,
        by,
        a + b + c,
    ) && sealed(fadt, seq![0x46u8, 0x41, 0x43, 0x50], 6, by, fadt_body(t[3].0)) && sealed(
        dsdt,
        seq![0x44u8, 0x53, 0x44, 0x54],
        6,
        by,
        super::dsdt_image(cpus_max),
    ) && sealed(madt, seq![0x41u8, 0x50, 0x49, 0x43], 1, by, madt_image(cpus, cpus_max))) by {
        reveal(tables_placed);
    }
    lemma_root(rsdp, t[1].0);
    lemma_head(xsdt, seq![0x58u8, 0x53, 0x44, 0x54], 1, by, a + b + c);
    super::lemma_fadt_len(t[3].0);
    lemma_head(fadt, seq![0x46u8, 0x41, 0x43, 0x50], 6, by, fadt_body(t[3].0));
    lemma_head(dsdt, seq![0x44u8, 0x53, 0x44, 0x54], 6, by, super::dsdt_image(cpus_max));
    assert(madt_image(cpus, cpus_max).len() < 0x1000_0000) by {
        super::lemma_sealed(madt, seq![0x41u8, 0x50, 0x49, 0x43], 1, by, madt_image(cpus, cpus_max));
    }
    lemma_head(madt, seq![0x41u8, 0x50, 0x49, 0x43], 1, by, madt_image(cpus, cpus_max));
    let none = Seq::<u8>::empty();
    let h = xsdt.take(36);
    let body = a + b + c;
    assert(xsdt =~= h + xsdt.skip(36));
    assert(xsdt == h + body);
    assert(h + body =~= h + a + (b + c));
    lemma_reads(h, t[2].0 as nat, 8, b + c);
    assert(h + body =~= (h + a) + b + c);
    lemma_reads(h + a, t[4].0 as nat, 8, c);
    assert(h + body =~= (h + a + b) + c + none);
    lemma_reads(h + a + b, t[3].0 as nat, 8, none);
    law_the_fadt_points_at_the_registers(t[3].0);
    let f = fadt_body(t[3].0);
    assert(fadt.skip(36) == f);
    assert(fadt.subrange(140, 148) =~= fadt.skip(36).subrange(104, 112));
    crate::bytes::lemma_le_bytes_of_value(f, 104, 8);
    lemma_le_round_trip(fadt, 140, t[3].0 as nat, 8);
}

proof fn lemma_root(rsdp: Seq<u8>, xsdt: u64)
    requires
        root_pointer(rsdp, super::OEM_ID@, xsdt),
    ensures
        rsdp.take(8) == seq![0x52u8, 0x53, 0x44, 0x20, 0x50, 0x54, 0x52, 0x20],
        le_at(rsdp, 24, 8) == xsdt,
{
    reveal(root_pointer);
    lemma_bounds();
    let head = seq![0x52u8, 0x53, 0x44, 0x20, 0x50, 0x54, 0x52, 0x20, rsdp[8]] + super::OEM_ID@
        + seq![2u8] + zeros(4) + seq![36u8, 0, 0, 0];
    let end = seq![rsdp[32], 0, 0, 0];
    assert(rsdp =~= head + le_bytes(xsdt as nat, 8) + end);
    lemma_reads(head, xsdt as nat, 8, end);
    assert(rsdp.take(8) =~= seq![0x52u8, 0x53, 0x44, 0x20, 0x50, 0x54, 0x52, 0x20]);
}

} // verus!
