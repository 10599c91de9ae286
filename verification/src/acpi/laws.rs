//! What a guest finds in the ACPI tables.

use super::aml::{
    enclosed_image, entries_image, lemma_enclosed_len, length_image, method_image, name_image,
    number_image,
};
use super::run::{
    cins, cpen, cpu_name, csel, csta_name, has_method, has_object, law_numbers_read_back,
    lemma_cpu_name, lemma_in_dsdt, lemma_number_len, lemma_object, object_at, value, Env,
};
use super::{cpu_image, cpus_image, dsdt_image, ged_image, lapic_bytes, registers_image};
use crate::bytes::le_bytes;
use acpi_tables::aml::FieldEntry;
use vstd::prelude::*;

verus! {

/// Whether the code has, somewhere, these bytes.
pub open spec fn holds(code: Seq<u8>, bytes: Seq<u8>) -> bool {
    exists|at: int| #[trigger] stands_at(code, at, bytes)
}

/// Whether these bytes stand at `at`.
pub open spec fn stands_at(code: Seq<u8>, at: int, bytes: Seq<u8>) -> bool {
    0 <= at && at + bytes.len() <= code.len() && code.subrange(at, at + bytes.len()) == bytes
}

proof fn lemma_holds(a: Seq<u8>, bytes: Seq<u8>, z: Seq<u8>)
    ensures
        holds(a + bytes + z, bytes),
{
    let code = a + bytes + z;
    let at = a.len() as int;
    assert(code.subrange(at, at + bytes.len()) =~= bytes);
    assert(stands_at(code, at, bytes));
}

/// What an object's name is followed by: `_UID`.
pub open spec fn uid_name() -> Seq<u8> {
    seq![0x5fu8, 0x55, 0x49, 0x44]
}

/// `_STA`.
pub open spec fn sta_name() -> Seq<u8> {
    seq![0x5fu8, 0x53, 0x54, 0x41]
}

/// `_MAT`.
pub open spec fn mat_name() -> Seq<u8> {
    seq![0x5fu8, 0x4d, 0x41, 0x54]
}

/// The bytes that start a device.
pub open spec fn device_op() -> Seq<u8> {
    seq![0x5bu8, 0x82]
}

proof fn lemma_names()
    ensures
        name_image("_UID"@) == uid_name(),
        name_image("_STA"@) == sta_name(),
        name_image("_MAT"@) == mat_name(),
        name_image("CSTA"@) == csta_name(),
{
    reveal(name_image);
    reveal_strlit("_UID");
    reveal_strlit("_STA");
    reveal_strlit("_MAT");
    reveal_strlit("CSTA");
    assert(name_image("_UID"@) =~= uid_name());
    assert(name_image("_STA"@) =~= sta_name());
    assert(name_image("_MAT"@) =~= mat_name());
    assert(name_image("CSTA"@) =~= csta_name());
}

proof fn lemma_cpu_in_cpus(i: int, n: nat)
    requires
        0 <= i < n,
    ensures
        exists|a: Seq<u8>, z: Seq<u8>| #[trigger] (a + cpu_image(i) + z) == cpus_image(n),
    decreases n,
{
    if i == n - 1 {
        let a = cpus_image((n - 1) as nat);
        assert(a + cpu_image(i) + Seq::<u8>::empty() =~= cpus_image(n));
    } else {
        lemma_cpu_in_cpus(i, (n - 1) as nat);
        let m = cpus_image((n - 1) as nat);
        let (a, z) = choose|a: Seq<u8>, z: Seq<u8>| #[trigger] (a + cpu_image(i) + z) == m;
        let last = cpu_image(n - 1);
        assert(a + cpu_image(i) + (z + last) =~= cpus_image(n));
    }
}

/// Whether the code of a device says that it is the processor `i`: its unique id, its status, which
/// is that of `CSTA` for `i`, and its entry of the MADT, enabled.
pub open spec fn processor(code: Seq<u8>, i: int, e: Env) -> bool {
    &&& exists|uid: Seq<u8>|
        {
            &&& #[trigger] holds(code, seq![0x08u8] + uid_name() + uid)
            &&& value(uid, e) == (i, Seq::<u8>::empty())
        }
    &&& exists|sta: Seq<u8>|
        {
            &&& #[trigger] has_method(code, sta_name(), 0, sta)
            &&& sta.len() > 5 && sta[0] == 0xa4 && sta.subrange(1, 5) == csta_name()
            &&& value(sta.skip(5), e) == (i, Seq::<u8>::empty())
        }
    &&& exists|mat: Seq<u8>|
        {
            &&& #[trigger] has_method(code, mat_name(), 0, mat)
            &&& mat.len() == 13 && mat[0] == 0xa4 && mat[1] == 0x11
            &&& mat.skip(5) == seq![
                0u8,
                8,
                (i % 256) as u8,
                (i % 256) as u8,
                1,
                0,
                0,
                0,
            ]
        }
}

#[verifier::rlimit(60)]
proof fn lemma_processor(i: int, e: Env) -> (code: Seq<u8>)
    requires
        0 <= i < 4096,
    ensures
        code.len() < 300,
        cpu_image(i) == enclosed_image(device_op(), cpu_name(i) + code),
        processor(code, i, e),
{
    lemma_names();
    lemma_cpu_name(i);
    let num = number_image(i as u32);
    let hid = super::aml::named_image("_HID"@, super::aml::text_image("ACPI0007"@));
    let uid = super::aml::named_image("_UID"@, num);
    let sta_body = super::aml::return_image(name_image("CSTA"@) + num);
    let sta = method_image("_STA"@, 0, false, sta_body);
    let buffer = super::aml::buffer_image(lapic_bytes(i));
    let mat_body = super::aml::return_image(buffer);
    let mat = method_image("_MAT"@, 0, false, mat_body);
    let code = hid + uid + sta + mat;
    lemma_number_len(i as u32);
    let none = Seq::<u8>::empty();
    law_numbers_read_back(i as u32, none, e);
    assert(num + none =~= num);
    assert(holds(code, seq![0x08u8] + uid_name() + num)) by {
        lemma_holds(hid, uid, sta + mat);
        assert(hid + uid + (sta + mat) =~= code);
    }
    assert(sta_body[0] == 0xa4);
    assert(sta_body.subrange(1, 5) =~= csta_name());
    assert(sta_body.skip(5) =~= num);
    lemma_method_inside(hid + uid, sta_name() + seq![0u8], sta_body, mat);
    assert(has_method(code, sta_name(), 0, sta_body));
    lemma_buffer(i);
    assert(mat_body.skip(5) =~= buffer.skip(4));
    lemma_last_method(hid + uid + sta, mat_name() + seq![0u8], mat_body);
    assert(has_method(code, mat_name(), 0, mat_body));
    assert(hid.len() <= 20) by {
        reveal(super::aml::text_image);
        reveal(name_image);
        reveal_strlit("_HID");
        reveal_strlit("ACPI0007");
    }
    lemma_enclosed_len(seq![0x14u8], sta_name() + seq![0u8] + sta_body);
    lemma_enclosed_len(seq![0x14u8], mat_name() + seq![0u8] + mat_body);
    code
}

proof fn lemma_buffer(i: int)
    ensures
        ({
            let b = super::aml::buffer_image(lapic_bytes(i));
            &&& b.len() == 12 && b[0] == 0x11
            &&& b.skip(4) == seq![0u8, 8, (i % 256) as u8, (i % 256) as u8, 1, 0, 0, 0]
        }),
{
    reveal(enclosed_image);
    reveal(number_image);
    let b = super::aml::buffer_image(lapic_bytes(i));
    let n8 = number_image(8);
    assert(n8.len() == 2);
    let body = n8 + lapic_bytes(i);
    assert(body.len() == 10);
    assert(length_image(10).len() == 1);
    assert(b.skip(4) =~= lapic_bytes(i));
}

/// Every vCPU that there can be has a device of its own, which says which one it is.
pub proof fn law_every_cpu_has_a_device(n: u32, i: int, e: Env)
    requires
        0 <= i < n <= 4096,
    ensures
        exists|code: Seq<u8>|
            {
                &&& #[trigger] has_object(dsdt_image(n), device_op(), cpu_name(i), code)
                &&& processor(code, i, e)
            },
{
    let code = lemma_processor(i, e);
    lemma_cpu_in_cpus(i, n as nat);
    lemma_in_dsdt(n);
    let all = cpus_image(n as nat);
    let (a, z) = choose|a: Seq<u8>, z: Seq<u8>| #[trigger] (a + all + z) == dsdt_image(n);
    let (b, y) = choose|b: Seq<u8>, y: Seq<u8>| #[trigger] (b + cpu_image(i) + y) == all;
    assert(dsdt_image(n) == (a + b) + cpu_image(i) + (y + z)) by {
        lemma_inside(a, b, cpu_image(i), y, z);
    }
    lemma_device(dsdt_image(n), a + b, cpu_name(i), code, y + z);
}

proof fn lemma_inside(a: Seq<u8>, b: Seq<u8>, x: Seq<u8>, y: Seq<u8>, z: Seq<u8>)
    ensures
        a + (b + x + y) + z == (a + b) + x + (y + z),
{
    assert(a + (b + x + y) + z =~= (a + b) + x + (y + z));
}

proof fn lemma_device(all: Seq<u8>, a: Seq<u8>, name: Seq<u8>, code: Seq<u8>, z: Seq<u8>)
    requires
        name.len() == 4,
        code.len() < 1000,
        all == a + enclosed_image(device_op(), name + code) + z,
    ensures
        has_object(all, device_op(), name, code),
{
    lemma_object(a, device_op(), name, code, z);
    assert(object_at(all, a.len() as int, device_op(), name, code));
}

/// Where the bits of this name are in a region, and how many they are, by a list of a field's
/// entries: each a name, or a zero byte for bits that are passed over, and a number of bits.
pub open spec fn bits_of(list: Seq<u8>, name: Seq<u8>, from: int) -> (int, int)
    decreases list.len(),
{
    if list.len() < 2 {
        (-1, 0)
    } else if list.len() < 5 || list[0] == 0 {
        bits_of(list.skip(2), name, from + list[1])
    } else if list.take(4) == name {
        (from, list[4] as int)
    } else {
        bits_of(list.skip(5), name, from + list[4])
    }
}

/// `PRST`, the region of the hot-plug registers.
pub open spec fn prst_name() -> Seq<u8> {
    seq![0x50u8, 0x52, 0x53, 0x54]
}

/// The bytes that start a field.
pub open spec fn field_op() -> Seq<u8> {
    seq![0x5bu8, 0x81]
}

/// The guest's methods find the hot-plug registers where the controller has them: a window in memory
/// at 0xfe00_0000, the selector in its first four bytes, and the two status bits in its fifth. A
/// write of one of those bits writes zero to the other.
pub proof fn law_the_registers_are_the_controllers(n: u32)
    requires
        n <= 4096,
    ensures
        holds(
            dsdt_image(n),
            seq![0x5bu8, 0x80] + prst_name() + seq![0u8] + number_image(0xfe00_0000)
                + number_image(16),
        ),
        exists|list: Seq<u8>|
            {
                &&& #[trigger] has_object(dsdt_image(n), field_op(), prst_name().push(3), list)
                &&& bits_of(list, csel(), 0) == (0int, 32int)
            },
        exists|list: Seq<u8>|
            {
                &&& #[trigger] has_object(dsdt_image(n), field_op(), prst_name().push(0x41), list)
                &&& bits_of(list, cpen(), 0) == (32int, 1int)
                &&& bits_of(list, cins(), 0) == (33int, 1int)
            },
{
    lemma_in_dsdt(n);
    reveal(name_image);
    reveal_strlit("PRST");
    assert(name_image("PRST"@) =~= prst_name());
    let regs = registers_image();
    let (a, z) = choose|a: Seq<u8>, z: Seq<u8>| #[trigger] (a + regs + z) == dsdt_image(n);
    let region = seq![0x5bu8, 0x80] + prst_name() + seq![0u8] + number_image(0xfe00_0000)
        + number_image(16);
    let l1 = csel() + seq![32u8];
    let l2 = seq![0u8, 32] + (cpen() + seq![1u8]) + (cins() + seq![1u8]) + seq![0u8, 6];
    let f1 = enclosed_image(field_op(), prst_name().push(3) + l1);
    let f2 = enclosed_image(field_op(), prst_name().push(0x41) + l2);
    let lock = seq![0x5bu8, 1] + name_image("CLCK"@) + seq![0u8];
    lemma_lists(l1, l2);
    assert(prst_name() + seq![3u8] =~= prst_name().push(3));
    assert(prst_name() + seq![0x41u8] =~= prst_name().push(0x41));
    assert(regs == region + f1 + f2 + lock);
    lemma_four(a, region, f1, f2, lock, z);
    lemma_holds(a, region, f1 + f2 + lock + z);
    lemma_object(a + region, field_op(), prst_name().push(3), l1, f2 + lock + z);
    lemma_object(a + region + f1, field_op(), prst_name().push(0x41), l2, lock + z);
    assert(object_at(dsdt_image(n), (a + region).len() as int, field_op(), prst_name().push(3), l1));
    assert(object_at(
        dsdt_image(n),
        (a + region + f1).len() as int,
        field_op(),
        prst_name().push(0x41),
        l2,
    ));
    assert(has_object(dsdt_image(n), field_op(), prst_name().push(3), l1));
    assert(has_object(dsdt_image(n), field_op(), prst_name().push(0x41), l2));
    lemma_bits(l1, l2);
}

proof fn lemma_four(
    a: Seq<u8>,
    p: Seq<u8>,
    q: Seq<u8>,
    r: Seq<u8>,
    s: Seq<u8>,
    z: Seq<u8>,
)
    ensures
        a + (p + q + r + s) + z == a + p + (q + r + s + z),
        a + (p + q + r + s) + z == (a + p) + q + (r + s + z),
        a + (p + q + r + s) + z == (a + p + q) + r + (s + z),
{
    assert(a + (p + q + r + s) + z =~= a + p + (q + r + s + z));
    assert(a + (p + q + r + s) + z =~= (a + p) + q + (r + s + z));
    assert(a + (p + q + r + s) + z =~= (a + p + q) + r + (s + z));
}

proof fn lemma_lists(l1: Seq<u8>, l2: Seq<u8>)
    requires
        l1 == csel() + seq![32u8],
        l2 == seq![0u8, 32] + (cpen() + seq![1u8]) + (cins() + seq![1u8]) + seq![0u8, 6],
    ensures
        entries_image(seq![FieldEntry::Named([0x43, 0x53, 0x45, 0x4c], 32)]) == l1,
        entries_image(
            seq![
                FieldEntry::Reserved(32),
                FieldEntry::Named([0x43, 0x50, 0x45, 0x4e], 1),
                FieldEntry::Named([0x43, 0x49, 0x4e, 0x53], 1),
                FieldEntry::Reserved(6),
            ],
        ) == l2,
{
    let e1 = seq![FieldEntry::Named([0x43, 0x53, 0x45, 0x4c], 32)];
    let e2 = seq![
        FieldEntry::Reserved(32),
        FieldEntry::Named([0x43, 0x50, 0x45, 0x4e], 1),
        FieldEntry::Named([0x43, 0x49, 0x4e, 0x53], 1),
        FieldEntry::Reserved(6),
    ];
    reveal_with_fuel(entries_image, 6);
    let s: [u8; 4] = [0x43, 0x53, 0x45, 0x4c];
    let p: [u8; 4] = [0x43, 0x50, 0x45, 0x4e];
    let i: [u8; 4] = [0x43, 0x49, 0x4e, 0x53];
    assert(s@ =~= csel());
    assert(p@ =~= cpen());
    assert(i@ =~= cins());
    assert(e1.drop_last() =~= Seq::empty());
    assert(entries_image(e1) =~= l1);
    let e3 = e2.drop_last();
    let e4 = e3.drop_last();
    let e5 = e4.drop_last();
    assert(e5.drop_last() =~= Seq::empty());
    assert(entries_image(e5) =~= seq![0u8, 32]);
    assert(entries_image(e4) =~= seq![0u8, 32] + (cpen() + seq![1u8]));
    assert(entries_image(e3) =~= seq![0u8, 32] + (cpen() + seq![1u8]) + (cins() + seq![1u8]));
    assert(entries_image(e2) =~= l2);
}

proof fn lemma_bits(l1: Seq<u8>, l2: Seq<u8>)
    requires
        l1 == csel() + seq![32u8],
        l2 == seq![0u8, 32] + (cpen() + seq![1u8]) + (cins() + seq![1u8]) + seq![0u8, 6],
    ensures
        bits_of(l1, csel(), 0) == (0int, 32int),
        bits_of(l2, cpen(), 0) == (32int, 1int),
        bits_of(l2, cins(), 0) == (33int, 1int),
{
    assert(l1.take(4) =~= csel());
    let m = l2.skip(2);
    assert(m.take(4) =~= cpen());
    assert(m[4] == 1);
    let k = m.skip(5);
    assert(k.take(4) =~= cins());
    assert(k[4] == 1);
    assert(cpen()[1] != cins()[1]);
    reveal_with_fuel(bits_of, 4);
}

/// The interrupt that announces an inserted vCPU runs the scan: the event device has the edge of
/// interrupt 23, and its handler is `CSCN` of the CPU container.
pub proof fn law_the_event_runs_the_scan(n: u32)
    requires
        n <= 4096,
    ensures
        exists|code: Seq<u8>|
            {
                &&& #[trigger] has_object(dsdt_image(n), device_op(), ged_name(), code)
                &&& holds(code, crs_code())
                &&& has_method(code, evt_name(), 9, scan_path())
            },
{
    let code = event_code();
    lemma_event();
    lemma_event_image();
    lemma_in_dsdt(n);
    let (a, z) = choose|a: Seq<u8>, z: Seq<u8>| #[trigger] (a + ged_image() + z) == dsdt_image(n);
    lemma_device(dsdt_image(n), a, ged_name(), code, z);
}

/// The identification of the event device.
spec fn event_ids() -> Seq<u8> {
    super::aml::named_image("_HID"@, super::aml::text_image("ACPI0013"@)) + super::aml::named_image(
        "_UID"@,
        seq![0u8],
    )
}

/// The code of the event device.
spec fn event_code() -> Seq<u8> {
    event_ids() + crs_code() + enclosed_image(
        seq![0x14u8],
        (evt_name() + seq![9u8]) + scan_path(),
    )
}

proof fn lemma_event_image()
    ensures
        ged_image() == enclosed_image(device_op(), ged_name() + event_code()),
{
    lemma_event_names();
    let evt = method_image("_EVT"@, 1, true, name_image("\\_SB_.CPUS.CSCN"@));
    assert(evt == enclosed_image(seq![0x14u8], (evt_name() + seq![9u8]) + scan_path()));
    let crs = super::aml::named_image(
        "_CRS"@,
        super::aml::interrupt_image(true, true, false, false, crate::layout::x86::GED_GSI),
    );
    assert(crs == crs_code());
    let body = event_ids() + crs + evt;
    assert(body == event_code());
    assert(ged_image() == super::aml::device_image("GED0"@, body));
}

proof fn lemma_event()
    ensures
        event_code().len() < 300,
        holds(event_code(), crs_code()),
        has_method(event_code(), evt_name(), 9, scan_path()),
{
    lemma_event_names();
    let ids = event_ids();
    let head = evt_name() + seq![9u8];
    let evt = enclosed_image(seq![0x14u8], head + scan_path());
    lemma_holds(ids, crs_code(), evt);
    lemma_last_method(ids + crs_code(), head, scan_path());
    assert(crs_code().len() == 20 && scan_path().len() == 15 && head.len() == 5);
    lemma_enclosed_len(seq![0x14u8], head + scan_path());
}

/// A method at the end of the code is found there.
proof fn lemma_last_method(before: Seq<u8>, head: Seq<u8>, body: Seq<u8>)
    requires
        head.len() + body.len() < 1000,
    ensures
        has_object(before + enclosed_image(seq![0x14u8], head + body), seq![0x14u8], head, body),
{
    let none = Seq::<u8>::empty();
    let code = before + enclosed_image(seq![0x14u8], head + body);
    lemma_object(before, seq![0x14u8], head, body, none);
    assert(code + none =~= code);
    assert(object_at(code, before.len() as int, seq![0x14u8], head, body));
}

/// A method with code behind it is found there.
proof fn lemma_method_inside(before: Seq<u8>, head: Seq<u8>, body: Seq<u8>, after: Seq<u8>)
    requires
        head.len() + body.len() < 1000,
    ensures
        has_object(
            before + enclosed_image(seq![0x14u8], head + body) + after,
            seq![0x14u8],
            head,
            body,
        ),
{
    let code = before + enclosed_image(seq![0x14u8], head + body) + after;
    lemma_object(before, seq![0x14u8], head, body, after);
    assert(object_at(code, before.len() as int, seq![0x14u8], head, body));
}

proof fn lemma_event_names()
    ensures
        name_image("\\_SB_.CPUS.CSCN"@) == scan_path(),
        super::aml::named_image(
            "_CRS"@,
            super::aml::interrupt_image(true, true, false, false, crate::layout::x86::GED_GSI),
        ) == crs_code(),
        name_image("_EVT"@) == evt_name(),
        name_image("GED0"@) == ged_name(),
        super::aml::named_image("_HID"@, super::aml::text_image("ACPI0013"@)).len() < 100,
        super::aml::named_image("_UID"@, seq![0u8]).len() < 100,
{
    reveal(name_image);
    assert(name_image("\\_SB_.CPUS.CSCN"@) =~= scan_path()) by {
        reveal_strlit("\\_SB_.CPUS.CSCN");
    }
    assert(super::aml::named_image(
        "_CRS"@,
        super::aml::interrupt_image(true, true, false, false, crate::layout::x86::GED_GSI),
    ) =~= crs_code()) by {
        reveal(super::aml::interrupt_image);
        reveal_strlit("_CRS");
        reveal_with_fuel(le_bytes, 5);
    }
    assert(name_image("_EVT"@) =~= evt_name()) by {
        reveal_strlit("_EVT");
    }
    assert(name_image("GED0"@) =~= ged_name()) by {
        reveal_strlit("GED0");
    }
    reveal(super::aml::text_image);
    reveal_strlit("_HID");
    reveal_strlit("_UID");
    reveal_strlit("ACPI0013");
}

/// `GED0`.
pub open spec fn ged_name() -> Seq<u8> {
    seq![0x47u8, 0x45, 0x44, 0x30]
}

/// `_EVT`.
pub open spec fn evt_name() -> Seq<u8> {
    seq![0x5fu8, 0x45, 0x56, 0x54]
}

/// `\_SB.CPUS.CSCN`.
pub open spec fn scan_path() -> Seq<u8> {
    seq![
        0x5cu8, 0x2f, 3, 0x5f, 0x53, 0x42, 0x5f, 0x43, 0x50, 0x55, 0x53, 0x43, 0x53, 0x43, 0x4e,
    ]
}

/// The object `_CRS`: a buffer of eleven bytes, an interrupt of its own that is edge-triggered,
/// active high and not shared, of number 23, and the end tag.
pub open spec fn crs_code() -> Seq<u8> {
    seq![
        8u8, 0x5f, 0x43, 0x52, 0x53, 0x11, 14, 0x0a, 11, 0x89, 6, 0, 3, 1, 23, 0, 0, 0, 0x79, 0,
    ]
}

/// The type of sleep that the DSDT gives for powering off is the one at which the sleep control
/// register powers the machine off, with the bit that starts the sleep.
pub proof fn law_powering_off_powers_off(n: u32)
    requires
        n <= 4096,
    ensures
        exists|kind: u8|
            {
                &&& #[trigger] holds(dsdt_image(n), sleep_code(kind))
                &&& crate::devices::legacy::enters_s5((4 * kind + 32) as u8)
            },
{
    lemma_in_dsdt(n);
    let s5 = super::run::s5_image();
    let a = choose|a: Seq<u8>| #[trigger] (a + s5) == dsdt_image(n);
    let none = Seq::<u8>::empty();
    lemma_holds(a, s5, none);
    assert(a + s5 + none =~= a + s5);
    lemma_sleep();
    assert(52u8 & 0x20 != 0 && (52u8 >> 2) & 7 == 5) by (bit_vector);
    assert(holds(dsdt_image(n), sleep_code(5)));
}

proof fn lemma_sleep()
    ensures
        super::run::s5_image() == sleep_code(5),
{
    reveal(number_image);
    reveal(enclosed_image);
    let five = number_image(5);
    assert(five.len() == 2);
    let body = seq![2u8] + five + number_image(0);
    assert(body =~= seq![2u8, 0x0a, 5, 0]);
    let package = enclosed_image(seq![0x12u8], body);
    assert(package =~= seq![0x12u8, 5, 2, 0x0a, 5, 0]);
    let name = name_image("_S5_"@);
    assert(name =~= seq![0x5fu8, 0x53, 0x35, 0x5f]) by {
        reveal(name_image);
        reveal_strlit("_S5_");
    }
    assert(super::run::s5_image() =~= sleep_code(5));
}

/// The object `_S5_`: a package of two numbers, a type of sleep and zero.
pub open spec fn sleep_code(kind: u8) -> Seq<u8> {
    seq![8u8, 0x5f, 0x53, 0x35, 0x5f, 0x12, 5, 2, 0x0a, kind, 0]
}

} // verus!
