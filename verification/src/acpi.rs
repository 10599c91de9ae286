//! The x86_64 ACPI tables: a hardware-reduced platform with the CPUs, the CPU hot-plug
//! controller, the Generic Event Device that announces a hot-added CPU, and the sleep and
//! reset registers a guest powers off and reboots through.
//!
//! Tables (all at [`x86::ACPI_ADDR`], where the kernel scans for the RSDP): RSDP, XSDT, FADT,
//! DSDT, MADT. The virtio-mmio devices are not in ACPI: the kernel command line names them.

use crate::bytes::{le_bytes, lemma_le_bytes_len};
use crate::devices::cpu_hotplug;
use crate::devices::legacy::{
    ACPI_PM_PORT, RESET_REGISTER, RESET_VALUE, S5_TYPE, SLEEP_CONTROL, SLEEP_STATUS,
};
use crate::error::{Result, VmmError, VmmErrorView};
use crate::layout::x86;
use acpi_tables::aml::{FieldAccessType, FieldEntry, FieldLockRule, FieldUpdateRule, OpRegionSpace};
use acpi_tables::fadt::FADTBuilder;
use acpi_tables::gas::{AccessSize, AddressSpace, GAS};
use acpi_tables::Aml;
use vstd::prelude::*;

pub mod aml;
pub mod laws;
pub mod run;
pub mod scan;
pub mod tables;

use aml::{
    acquire_code, buffer_code, byte, device, eisa_code, equal, field_code, if_holds,
    interrupt_code, joined, less, method, mutex_code, name_code, named, notify, number_code,
    pair_code, region_code, release_code, returned, scope_code, store, sum, text_code,
    while_holds,
};

verus! {

/// The OEM id of every table.
pub const OEM_ID: [u8; 6] = [0x4d, 0x4f, 0x52, 0x55, 0x4e, 0x41];

/// The OEM table id of every table.
pub const OEM_TABLE: [u8; 8] = [0x4d, 0x52, 0x4e, 0x41, 0x56, 0x4d, 0x4d, 0x20];

/// The OEM revision of every table.
pub const OEM_REV: u32 = 1;

/// The FADT's flags: hardware-reduced, a reset register, no fixed power or sleep button.
pub const FADT_FLAGS: u32 = 0x10_0430;

/// The hypervisor vendor in the FADT: `MORUNAVM`.
pub const VENDOR: u64 = 0x4d56_414e_5552_4f4d;

/// One table at its guest address.
pub type Placed = (u64, Vec<u8>);

/// The most vCPUs that four-character device names tell apart.
pub const MAX_NAMED: u32 = 4096;

/// The upper-case hexadecimal digit of `d`.
pub open spec fn upper_hex(d: int) -> char {
    if d < 10 {
        (0x30 + d) as char
    } else {
        (0x37 + d) as char
    }
}

/// `prefix` and three hexadecimal digits of `i`.
pub open spec fn name4_text(prefix: char, i: int) -> Seq<char> {
    seq![prefix, upper_hex(i / 256), upper_hex(i / 16 % 16), upper_hex(i % 16)]
}

fn hex_char(d: u32) -> (c: char)
    requires
        d < 16,
    ensures
        c == upper_hex(d as int),
        aml::plain(c),
{
    if d < 10 {
        (0x30u8 + d as u8) as char
    } else {
        (0x37u8 + d as u8) as char
    }
}

/// The four-character name of `i`: `prefix` and three hexadecimal digits.
pub fn name4(prefix: char, i: u32) -> (s: String)
    requires
        i < MAX_NAMED,
        aml::plain(prefix),
    ensures
        s@ == name4_text(prefix, i as int),
        aml::name_ok(s@),
{
    let mut s = String::new();
    s.push(prefix);
    s.push(hex_char(i / 256));
    s.push(hex_char(i / 16 % 16));
    s.push(hex_char(i % 16));
    assert(s@ =~= name4_text(prefix, i as int));
    assert(aml::name_ok(s@)) by {
        reveal(aml::name_ok);
    }
    s
}

/// The MADT entry of vCPU `i` as `_MAT` returns it: enabled.
pub open spec fn lapic_bytes(i: int) -> Seq<u8> {
    seq![0u8, 8, (i % 256) as u8, (i % 256) as u8, 1, 0, 0, 0]
}

/// The MADT entry of vCPU `i` as `_MAT` returns it: enabled.
pub fn lapic_entry(i: u32) -> (r: Vec<u8>)
    ensures
        r@ == lapic_bytes(i as int),
{
    let id = (i % 256) as u8;
    let r = vec![0u8, 8, id, id, 1, 0, 0, 0];
    assert(r@ =~= lapic_bytes(i as int));
    r
}

/// The operation region over the hot-plug controller and the fields in it.
pub open spec fn registers_image() -> Seq<u8> {
    seq![0x5bu8, 0x80] + aml::name_image("PRST"@) + seq![0u8] + aml::number_image(
        x86::CPU_HOTPLUG_ADDR as u32,
    ) + aml::number_image(cpu_hotplug::WINDOW_BYTES as u32) + aml::field_image(
        "PRST"@,
        3,
        seq![FieldEntry::Named([0x43, 0x53, 0x45, 0x4c], 32)],
    ) + aml::field_image(
        "PRST"@,
        0x41,
        seq![
            FieldEntry::Reserved(32),
            FieldEntry::Named([0x43, 0x50, 0x45, 0x4e], 1),
            FieldEntry::Named([0x43, 0x49, 0x4e, 0x53], 1),
            FieldEntry::Reserved(6),
        ],
    ) + (seq![0x5bu8, 1] + aml::name_image("CLCK"@) + seq![0u8])
}

/// Taking the controller's lock, waiting as long as it takes.
pub open spec fn acquire_image() -> Seq<u8> {
    seq![0x5bu8, 0x23] + aml::name_image("CLCK"@) + le_bytes(0xffff, 2)
}

/// Giving the controller's lock back.
pub open spec fn release_image() -> Seq<u8> {
    seq![0x5bu8, 0x27] + aml::name_image("CLCK"@)
}

/// `CSTA(id)`: select the CPU; 0xF if it is enabled, else 0.
pub open spec fn csta_image() -> Seq<u8> {
    aml::method_image(
        "CSTA"@,
        1,
        true,
        acquire_image() + aml::store_image(aml::name_image("CSEL"@), aml::arg_image(0))
            + aml::store_image(aml::local_image(0), seq![0u8]) + aml::if_image(
            aml::equal_image(aml::name_image("CPEN"@), seq![1u8]),
            aml::store_image(aml::local_image(0), seq![0x0au8, 0x0f]),
        ) + release_image() + aml::return_image(aml::local_image(0)),
    )
}

/// The cases of `CTFY` for the first `n` vCPUs: where the argument is the vCPU, notify it.
pub open spec fn ctfy_cases(n: nat) -> Seq<u8>
    decreases n,
{
    if n == 0 {
        Seq::empty()
    } else {
        let i = n - 1;
        ctfy_cases(i as nat) + aml::if_image(
            aml::equal_image(aml::arg_image(0), aml::number_image(i as u32)),
            aml::notify_image(aml::name_image(name4_text('C', i)), aml::arg_image(1)),
        )
    }
}

/// `CSCN()`: for each vCPU that is inserting, notify it (device check) and clear the mark.
pub open spec fn cscn_image(n: u32) -> Seq<u8> {
    aml::method_image(
        "CSCN"@,
        0,
        true,
        acquire_image() + aml::store_image(aml::local_image(0), seq![0u8]) + aml::while_image(
            aml::less_image(aml::local_image(0), aml::number_image(n)),
            aml::store_image(aml::name_image("CSEL"@), aml::local_image(0)) + aml::if_image(
                aml::equal_image(aml::name_image("CINS"@), seq![1u8]),
                aml::name_image("CTFY"@) + aml::local_image(0) + seq![1u8] + aml::store_image(
                    aml::name_image("CINS"@),
                    seq![1u8],
                ),
            ) + aml::add_image(aml::local_image(0), aml::local_image(0), seq![1u8]),
        ) + release_image(),
    )
}

/// The device of vCPU `i`: its number, its state from `CSTA`, and its MADT entry.
pub open spec fn cpu_image(i: int) -> Seq<u8> {
    aml::device_image(
        name4_text('C', i),
        aml::named_image("_HID"@, aml::text_image("ACPI0007"@)) + aml::named_image(
            "_UID"@,
            aml::number_image(i as u32),
        ) + aml::method_image(
            "_STA"@,
            0,
            false,
            aml::return_image(aml::name_image("CSTA"@) + aml::number_image(i as u32)),
        ) + aml::method_image(
            "_MAT"@,
            0,
            false,
            aml::return_image(aml::buffer_image(lapic_bytes(i))),
        ),
    )
}

/// The devices of the first `n` vCPUs.
pub open spec fn cpus_image(n: nat) -> Seq<u8>
    decreases n,
{
    if n == 0 {
        Seq::empty()
    } else {
        cpus_image((n - 1) as nat) + cpu_image(n - 1)
    }
}

/// The container of the vCPUs: the registers, the methods, one device per possible vCPU.
pub open spec fn container_image(n: u32) -> Seq<u8> {
    aml::device_image(
        "CPUS"@,
        aml::named_image("_HID"@, aml::text_image("ACPI0010"@)) + aml::named_image(
            "_CID"@,
            aml::number_image(aml::swapped(aml::eisa_value("PNP0A05"@)) as u32),
        ) + registers_image() + csta_image() + aml::method_image(
            "CTFY"@,
            2,
            true,
            ctfy_cases(n as nat),
        ) + cscn_image(n) + cpus_image(n as nat),
    )
}

/// The Generic Event Device: its interrupt runs `CSCN`.
pub open spec fn ged_image() -> Seq<u8> {
    aml::device_image(
        "GED0"@,
        aml::named_image("_HID"@, aml::text_image("ACPI0013"@)) + aml::named_image(
            "_UID"@,
            seq![0u8],
        ) + aml::named_image("_CRS"@, aml::interrupt_image(true, true, false, false, x86::GED_GSI))
            + aml::method_image("_EVT"@, 1, true, aml::name_image("\\_SB_.CPUS.CSCN"@)),
    )
}

/// The DSDT body: `\_SB.CPUS` with one device per possible vCPU and the scan method, the GED,
/// and `\_S5`.
#[verifier::opaque]
pub open spec fn dsdt_image(n: u32) -> Seq<u8> {
    aml::enclosed_image(
        seq![0x10u8],
        aml::name_image("\\_SB_"@) + (container_image(n) + ged_image()),
    ) + aml::named_image(
        "_S5_"@,
        aml::enclosed_image(
            seq![0x12u8],
            seq![2u8] + aml::number_image(S5_TYPE as u32) + aml::number_image(0),
        ),
    )
}

proof fn lemma_names()
    ensures
        aml::name_ok("PRST"@),
        aml::name_ok("CLCK"@),
        aml::name_ok("CSEL"@),
        aml::name_ok("CPEN"@),
        aml::name_ok("CINS"@),
        aml::name_ok("CSTA"@),
        aml::name_ok("CTFY"@),
        aml::name_ok("CSCN"@),
        aml::name_ok("_HID"@),
        aml::name_ok("_UID"@),
        aml::name_ok("_CID"@),
        aml::name_ok("_STA"@),
        aml::name_ok("_MAT"@),
        aml::name_ok("_CRS"@),
        aml::name_ok("_EVT"@),
        aml::name_ok("_S5_"@),
        aml::name_ok("CPUS"@),
        aml::name_ok("GED0"@),
        aml::name_ok("\\_SB_"@),
        aml::name_ok("\\_SB_.CPUS.CSCN"@),
        aml::name_image("PRST"@).len() == 4,
        aml::name_image("CLCK"@).len() == 4,
        aml::name_image("CSEL"@).len() == 4,
        aml::name_image("CPEN"@).len() == 4,
        aml::name_image("CINS"@).len() == 4,
        aml::name_image("CSTA"@).len() == 4,
        aml::name_image("CTFY"@).len() == 4,
{
    reveal(aml::name_ok);
    reveal(aml::name_image);
    reveal_strlit("PRST");
    reveal_strlit("CLCK");
    reveal_strlit("CSEL");
    reveal_strlit("CPEN");
    reveal_strlit("CINS");
    reveal_strlit("CSTA");
    reveal_strlit("CTFY");
    reveal_strlit("CSCN");
    reveal_strlit("_HID");
    reveal_strlit("_UID");
    reveal_strlit("_CID");
    reveal_strlit("_STA");
    reveal_strlit("_MAT");
    reveal_strlit("_CRS");
    reveal_strlit("_EVT");
    reveal_strlit("_S5_");
    reveal_strlit("CPUS");
    reveal_strlit("GED0");
    reveal_strlit("\\_SB_");
    reveal_strlit("\\_SB_.CPUS.CSCN");
}

proof fn lemma_texts()
    ensures
        aml::ascii("ACPI0007"@) && aml::text_image("ACPI0007"@).len() == 10,
        aml::ascii("ACPI0010"@) && aml::text_image("ACPI0010"@).len() == 10,
        aml::ascii("ACPI0013"@) && aml::text_image("ACPI0013"@).len() == 10,
        aml::eisa_ok("PNP0A05"@),
{
    reveal(aml::text_image);
    reveal_strlit("ACPI0007");
    reveal_strlit("ACPI0010");
    reveal_strlit("ACPI0013");
    reveal_strlit("PNP0A05");
}

proof fn lemma_number_len(n: u32)
    ensures
        aml::number_image(n).len() <= 5,
{
    reveal(aml::number_image);
    lemma_le_bytes_len(n as nat, 2);
    lemma_le_bytes_len(n as nat, 4);
}

fn registers() -> (r: Vec<u8>)
    ensures
        r@ == registers_image(),
        r@.len() < 200,
{
    proof {
        lemma_names();
        lemma_number_len(x86::CPU_HOTPLUG_ADDR as u32);
        lemma_number_len(cpu_hotplug::WINDOW_BYTES as u32);
        reveal_with_fuel(aml::entries_image, 5);
    }
    let out = region_code(
        "PRST",
        OpRegionSpace::SystemMemory,
        x86::CPU_HOTPLUG_ADDR as u32,
        cpu_hotplug::WINDOW_BYTES as u32,
    );
    let csel = vec![FieldEntry::Named([0x43, 0x53, 0x45, 0x4c], 32)];
    assert(csel@ =~= seq![FieldEntry::Named([0x43, 0x53, 0x45, 0x4c], 32)]);
    let csel_field = field_code(
        "PRST",
        FieldAccessType::DWord,
        FieldLockRule::NoLock,
        FieldUpdateRule::Preserve,
        csel,
    );
    let stat = vec![
        FieldEntry::Reserved(32),
        FieldEntry::Named([0x43, 0x50, 0x45, 0x4e], 1),
        FieldEntry::Named([0x43, 0x49, 0x4e, 0x53], 1),
        FieldEntry::Reserved(6),
    ];
    assert(stat@ =~= seq![
        FieldEntry::Reserved(32),
        FieldEntry::Named([0x43, 0x50, 0x45, 0x4e], 1),
        FieldEntry::Named([0x43, 0x49, 0x4e, 0x53], 1),
        FieldEntry::Reserved(6),
    ]);
    let stat_field = field_code(
        "PRST",
        FieldAccessType::Byte,
        FieldLockRule::NoLock,
        FieldUpdateRule::WriteAsZeroes,
        stat,
    );
    let lock = mutex_code("CLCK", 0);
    proof {
        assert(stat@.drop_last().drop_last().drop_last().drop_last() =~= Seq::empty());
        assert(aml::entries_image(csel@).len() <= 20);
        assert(aml::entries_image(stat@).len() <= 20);
        aml::lemma_enclosed_len(
            seq![0x5bu8, 0x81],
            aml::name_image("PRST"@) + seq![3u8] + aml::entries_image(csel@),
        );
        aml::lemma_enclosed_len(
            seq![0x5bu8, 0x81],
            aml::name_image("PRST"@) + seq![0x41u8] + aml::entries_image(stat@),
        );
    }
    let out = joined(&out, &csel_field);
    let out = joined(&out, &stat_field);
    joined(&out, &lock)
}

fn csta() -> (r: Vec<u8>)
    ensures
        r@ == csta_image(),
        r@.len() < 200,
{
    proof {
        lemma_names();
        lemma_le_bytes_len(0xffff, 2);
        assert(aml::number_image(15) =~= seq![0x0au8, 0x0f]) by {
            reveal(aml::number_image);
        }
    }
    let csel = name_code("CSEL");
    let cpen = name_code("CPEN");
    let arg0 = byte(0x68);
    let local0 = byte(0x60);
    let zero = byte(0);
    let one = byte(1);
    let fifteen = number_code(15);
    let sel_arg = store(&csel, &arg0);
    let l0_zero = store(&local0, &zero);
    let l0_f = store(&local0, &fifteen);
    let en = equal(&cpen, &one);
    let if_en = if_holds(&en, &l0_f);
    let release = release_code("CLCK");
    let ret_l0 = returned(&local0);
    let body = acquire_code("CLCK", 0xffff);
    let body = joined(&body, &sel_arg);
    let body = joined(&body, &l0_zero);
    let body = joined(&body, &if_en);
    let body = joined(&body, &release);
    let body = joined(&body, &ret_l0);
    method("CSTA", 1, true, &body)
}

fn ctfy(n: u32) -> (r: Vec<u8>)
    requires
        n <= MAX_NAMED,
    ensures
        r@ == aml::method_image("CTFY"@, 2, true, ctfy_cases(n as nat)),
        r@.len() <= 40 * n + 21,
{
    proof {
        lemma_names();
    }
    let arg0 = byte(0x68);
    let arg1 = byte(0x69);
    let mut cases: Vec<u8> = Vec::new();
    let mut i: u32 = 0;
    while i < n
        invariant
            i <= n <= MAX_NAMED,
            arg0@ == aml::arg_image(0),
            arg1@ == aml::arg_image(1),
            cases@ == ctfy_cases(i as nat),
            cases@.len() <= 40 * i,
        decreases n - i,
    {
        let name = name4('C', i);
        proof {
            lemma_number_len(i);
            aml::lemma_name_len(name@);
        }
        let path = name_code(name.as_str());
        let n_code = number_code(i);
        let test = equal(&arg0, &n_code);
        let tell = notify(&path, &arg1);
        proof {
            lemma_number_len(i);
            }
        let case = if_holds(&test, &tell);
        cases = joined(&cases, &case);
        i += 1;
    }
    method("CTFY", 2, true, &cases)
}

fn cscn(n: u32) -> (r: Vec<u8>)
    ensures
        r@ == cscn_image(n),
        r@.len() < 200,
{
    proof {
        lemma_names();
        lemma_number_len(n);
        lemma_le_bytes_len(0xffff, 2);
    }
    let csel = name_code("CSEL");
    let cins = name_code("CINS");
    let local0 = byte(0x60);
    let zero = byte(0);
    let one = byte(1);
    let l0_zero = store(&local0, &zero);
    let sel_l0 = store(&csel, &local0);
    let ins = equal(&cins, &one);
    let call = name_code("CTFY");
    let call = joined(&call, &local0);
    let call = joined(&call, &one);
    let clear = store(&cins, &one);
    let seen = joined(&call, &clear);
    let if_ins = if_holds(&ins, &seen);
    let inc = sum(&local0, &local0, &one);
    let max = number_code(n);
    let below = less(&local0, &max);
    let step = joined(&sel_l0, &if_ins);
    let step = joined(&step, &inc);
    let scan = while_holds(&below, &step);
    let release = release_code("CLCK");
    let body = acquire_code("CLCK", 0xffff);
    let body = joined(&body, &l0_zero);
    let body = joined(&body, &scan);
    let body = joined(&body, &release);
    method("CSCN", 0, true, &body)
}

fn cpu(i: u32) -> (r: Vec<u8>)
    requires
        i < MAX_NAMED,
    ensures
        r@ == cpu_image(i as int),
        r@.len() < 200,
{
    proof {
        lemma_names();
        lemma_texts();
        lemma_number_len(i);
        lemma_number_len(8);
        aml::lemma_enclosed_len(seq![0x11u8], aml::number_image(8) + lapic_bytes(i as int));
    }
    let uid = number_code(i);
    let hid = text_code("ACPI0007");
    let body = named("_HID", &hid);
    let uid_name = named("_UID", &uid);
    let call = name_code("CSTA");
    let call = joined(&call, &uid);
    let sta_ret = returned(&call);
    let sta = method("_STA", 0, false, &sta_ret);
    let entry = lapic_entry(i);
    let mat_buf = buffer_code(entry);
    let mat_ret = returned(&mat_buf);
    let mat = method("_MAT", 0, false, &mat_ret);
    let body = joined(&body, &uid_name);
    let body = joined(&body, &sta);
    let body = joined(&body, &mat);
    let name = name4('C', i);
    device(name.as_str(), &body)
}

fn cpus(n: u32) -> (r: Vec<u8>)
    requires
        n <= MAX_NAMED,
    ensures
        r@ == cpus_image(n as nat),
        r@.len() <= 200 * n,
{
    let mut out: Vec<u8> = Vec::new();
    let mut i: u32 = 0;
    while i < n
        invariant
            i <= n <= MAX_NAMED,
            out@ == cpus_image(i as nat),
            out@.len() <= 200 * i,
        decreases n - i,
    {
        let one = cpu(i);
        out = joined(&out, &one);
        i += 1;
    }
    out
}

fn container(n: u32) -> (r: Vec<u8>)
    requires
        n <= MAX_NAMED,
    ensures
        r@ == container_image(n),
        r@.len() <= 240 * n + 1000,
{
    proof {
        lemma_names();
        lemma_texts();
        lemma_number_len(aml::swapped(aml::eisa_value("PNP0A05"@)) as u32);
    }
    let hid = text_code("ACPI0010");
    let cid = eisa_code("PNP0A05");
    let body = named("_HID", &hid);
    let cid_name = named("_CID", &cid);
    let regs = registers();
    let state = csta();
    let tell = ctfy(n);
    let scan = cscn(n);
    let devices = cpus(n);
    let body = joined(&body, &cid_name);
    let body = joined(&body, &regs);
    let body = joined(&body, &state);
    let body = joined(&body, &tell);
    let body = joined(&body, &scan);
    let body = joined(&body, &devices);
    device("CPUS", &body)
}

fn ged() -> (r: Vec<u8>)
    ensures
        r@ == ged_image(),
        r@.len() < 200,
{
    proof {
        lemma_names();
        lemma_texts();
        lemma_le_bytes_len(x86::GED_GSI as nat, 4);
        reveal(aml::interrupt_image);
        aml::lemma_name_len("\\_SB_.CPUS.CSCN"@);
    }
    let hid = text_code("ACPI0013");
    let body = named("_HID", &hid);
    let zero = byte(0);
    let uid = named("_UID", &zero);
    let irq = interrupt_code(true, true, false, false, x86::GED_GSI);
    let crs = named("_CRS", &irq);
    let call = name_code("\\_SB_.CPUS.CSCN");
    let evt = method("_EVT", 1, true, &call);
    let body = joined(&body, &uid);
    let body = joined(&body, &crs);
    let body = joined(&body, &evt);
    device("GED0", &body)
}

/// The DSDT body: `\_SB.CPUS` with one device per possible vCPU and the scan method, the GED,
/// and `\_S5`.
pub fn dsdt(cpus_max: u32) -> (r: Vec<u8>)
    requires
        cpus_max <= MAX_NAMED,
    ensures
        r@ == dsdt_image(cpus_max),
        r@.len() <= 240 * cpus_max + 1400,
{
    reveal(dsdt_image);
    proof {
        lemma_names();
        lemma_number_len(S5_TYPE as u32);
        lemma_number_len(0);
        aml::lemma_name_len("\\_SB_"@);
        aml::lemma_enclosed_len(
            seq![0x12u8],
            seq![2u8] + aml::number_image(S5_TYPE as u32) + aml::number_image(0),
        );
    }
    let cpus = container(cpus_max);
    let events = ged();
    let inner = joined(&cpus, &events);
    proof {
        aml::lemma_enclosed_len(seq![0x10u8], aml::name_image("\\_SB_"@) + inner@);
    }
    let sb = scope_code("\\_SB_", inner);
    let types = pair_code(S5_TYPE, 0);
    let s5 = named("_S5_", &types);
    joined(&sb, &s5)
}

/// The sum of a table's bytes.
pub open spec fn byte_sum(b: Seq<u8>) -> nat
    decreases b.len(),
{
    if b.len() == 0 {
        0
    } else {
        byte_sum(b.drop_last()) + b.last() as nat
    }
}

/// Who made a table: the OEM id, the OEM table id and the OEM revision.
pub open spec fn maker(oem: Seq<u8>, table: Seq<u8>, rev: u32) -> Seq<u8> {
    oem + table + le_bytes(rev as nat, 4)
}

/// Whether `t` is the table `signature` holding `body`: the standard header with the table's
/// length and the checksum that makes the bytes add up to 0.
#[verifier::opaque]
pub open spec fn sealed(
    t: Seq<u8>,
    signature: Seq<u8>,
    revision: u8,
    by: Seq<u8>,
    body: Seq<u8>,
) -> bool {
    &&& t.len() == 36 + body.len()
    &&& t == signature + le_bytes(36 + body.len(), 4) + seq![revision, t[9]] + by + seq![
        0x52u8,
        0x56,
        0x41,
        0x54,
        0,
        0,
        0,
        1,
    ] + body
    &&& byte_sum(t) % 256 == 0
}

/// A table is its header and what it holds, and its bytes add up to 0.
pub proof fn lemma_sealed(t: Seq<u8>, signature: Seq<u8>, revision: u8, by: Seq<u8>, body: Seq<u8>)
    requires
        sealed(t, signature, revision, by, body),
    ensures
        t.len() == 36 + body.len(),
        byte_sum(t) % 256 == 0,
{
    reveal(sealed);
}

/// The MADT being built.
#[verifier::external_type_specification]
#[verifier::external_body]
pub struct ExMadt(acpi_tables::madt::MADT);

/// Who the MADT is made by.
pub uninterp spec fn madt_maker(m: acpi_tables::madt::MADT) -> Seq<u8>;

/// What follows the MADT's standard header.
pub uninterp spec fn madt_body(m: acpi_tables::madt::MADT) -> Seq<u8>;

/// `MADT::new` with the local APIC's address: no entries yet.
#[verifier::external_body]
fn madt_new(
    oem: [u8; 6],
    table: [u8; 8],
    rev: u32,
    lapic: u32,
) -> (m: acpi_tables::madt::MADT)
    ensures
        madt_maker(m) == maker(oem@, table@, rev),
        madt_body(m) == le_bytes(lapic as nat, 4) + seq![0u8, 0, 0, 0],
{
    let at = acpi_tables::madt::LocalInterruptController::Address(lapic);
    acpi_tables::madt::MADT::new(oem, table, rev, at)
}

/// The flags of a local APIC entry: 1 enabled, 2 disabled but online capable.
pub open spec fn lapic_flags(enabled: bool) -> u8 {
    if enabled {
        1
    } else {
        2
    }
}

/// `MADT::add_structure` of a `ProcessorLocalApic` that is enabled: the entry goes to the end.
#[verifier::external_body]
fn madt_add_enabled(m: &mut acpi_tables::madt::MADT, id: u8)
    requires
        36 + madt_body(*old(m)).len() + 8 <= u32::MAX,
    ensures
        madt_maker(*final(m)) == madt_maker(*old(m)),
        madt_body(*final(m)) == madt_body(*old(m)) + seq![0u8, 8, id, id, 1, 0, 0, 0],
{
    let status = acpi_tables::madt::EnabledStatus::Enabled;
    m.add_structure(acpi_tables::madt::ProcessorLocalApic::new(id, id, status));
}

/// `MADT::add_structure` of a `ProcessorLocalApic` that is disabled but online capable: the
/// entry goes to the end.
#[verifier::external_body]
fn madt_add_capable(m: &mut acpi_tables::madt::MADT, id: u8)
    requires
        36 + madt_body(*old(m)).len() + 8 <= u32::MAX,
    ensures
        madt_maker(*final(m)) == madt_maker(*old(m)),
        madt_body(*final(m)) == madt_body(*old(m)) + seq![0u8, 8, id, id, 2, 0, 0, 0],
{
    let status = acpi_tables::madt::EnabledStatus::DisabledOnlineCapable;
    m.add_structure(acpi_tables::madt::ProcessorLocalApic::new(id, id, status));
}

/// `MADT::add_structure` of an `IoApic`: the entry goes to the end.
#[verifier::external_body]
fn madt_add_ioapic(m: &mut acpi_tables::madt::MADT, id: u8, addr: u32, gsi: u32)
    requires
        36 + madt_body(*old(m)).len() + 12 <= u32::MAX,
    ensures
        madt_maker(*final(m)) == madt_maker(*old(m)),
        madt_body(*final(m)) == madt_body(*old(m)) + ioapic_bytes(id, addr, gsi),
{
    m.add_structure(acpi_tables::madt::IoApic::new(id, addr, gsi));
}

/// The MADT, encoded: the standard header, then what was put into it.
#[verifier::external_body]
fn madt_bytes(m: &acpi_tables::madt::MADT) -> (r: Vec<u8>)
    ensures
        sealed(r@, seq![0x41u8, 0x50, 0x49, 0x43], 1, madt_maker(*m), madt_body(*m)),
{
    let mut v = Vec::new();
    m.to_aml_bytes(&mut v);
    v
}

/// The MADT entry of an IOAPIC.
pub open spec fn ioapic_bytes(id: u8, addr: u32, gsi: u32) -> Seq<u8> {
    seq![1u8, 12, id, 0] + le_bytes(addr as nat, 4) + le_bytes(gsi as nat, 4)
}

/// The MADT entries of the first `n` vCPUs, of which the first `cpus` are enabled.
pub open spec fn lapics_image(cpus: u32, n: nat) -> Seq<u8>
    decreases n,
{
    if n == 0 {
        Seq::empty()
    } else {
        let i = n - 1;
        lapics_image(cpus, i as nat) + seq![
            0u8,
            8,
            (i % 256) as u8,
            (i % 256) as u8,
            lapic_flags(i < cpus),
            0,
            0,
            0,
        ]
    }
}

/// What the MADT holds: the local APIC's address, one local APIC per possible vCPU and the
/// IOAPIC, whose id follows the last local APIC's.
pub open spec fn madt_image(cpus: u32, cpus_max: u32) -> Seq<u8> {
    le_bytes(x86::LAPIC_ADDR as nat, 4) + seq![0u8, 0, 0, 0] + lapics_image(cpus, cpus_max as nat)
        + ioapic_bytes((cpus_max % 256) as u8, x86::IOAPIC_ADDR as u32, 0)
}

/// Each local APIC entry is 8 bytes long.
pub proof fn lemma_lapics_len(cpus: u32, n: nat)
    ensures
        lapics_image(cpus, n).len() == 8 * n,
    decreases n,
{
    if n > 0 {
        lemma_lapics_len(cpus, (n - 1) as nat);
    }
}

/// The MADT: one local APIC per possible vCPU (enabled for the boot vCPUs, online-capable for
/// the rest) and the IOAPIC.
pub fn madt(cpus: u32, cpus_max: u32) -> (r: Vec<u8>)
    requires
        56 + 8 * cpus_max <= u32::MAX,
    ensures
        sealed(
            r@,
            seq![0x41u8, 0x50, 0x49, 0x43],
            1,
            maker(OEM_ID@, OEM_TABLE@, OEM_REV),
            madt_image(cpus, cpus_max),
        ),
        r@.len() == 56 + 8 * cpus_max,
{
    proof {
        lemma_le_bytes_len(x86::LAPIC_ADDR as nat, 4);
        lemma_le_bytes_len(x86::IOAPIC_ADDR as nat, 4);
        lemma_le_bytes_len(0, 4);
        lemma_lapics_len(cpus, cpus_max as nat);
    }
    let mut m = madt_new(OEM_ID, OEM_TABLE, OEM_REV, x86::LAPIC_ADDR as u32);
    let ghost start = madt_body(m);
    proof {
        assert(start + lapics_image(cpus, 0) =~= start);
    }
    let mut i: u32 = 0;
    while i < cpus_max
        invariant
            i <= cpus_max,
            56 + 8 * cpus_max <= u32::MAX,
            start.len() == 8,
            madt_maker(m) == maker(OEM_ID@, OEM_TABLE@, OEM_REV),
            madt_body(m) == start + lapics_image(cpus, i as nat),
        decreases cpus_max - i,
    {
        proof {
            lemma_lapics_len(cpus, i as nat);
        }
        let ghost before = madt_body(m);
        let id = (i % 256) as u8;
        if i < cpus {
            madt_add_enabled(&mut m, id);
        } else {
            madt_add_capable(&mut m, id);
        }
        i += 1;
        assert(madt_body(m) =~= start + lapics_image(cpus, i as nat));
    }
    // The IOAPIC id follows the last possible local APIC id.
    madt_add_ioapic(&mut m, (cpus_max % 256) as u8, x86::IOAPIC_ADDR as u32, 0);
    let r = madt_bytes(&m);
    proof {
        lemma_sealed(
            r@,
            seq![0x41u8, 0x50, 0x49, 0x43],
            1,
            maker(OEM_ID@, OEM_TABLE@, OEM_REV),
            madt_image(cpus, cpus_max),
        );
    }
    r
}

/// A register of one byte in IO space.
pub open spec fn io_register(port: u64) -> Seq<u8> {
    seq![1u8, 8, 0, 1] + le_bytes(port as nat, 8)
}

/// `n` zero bytes.
pub open spec fn zeros(n: nat) -> Seq<u8> {
    Seq::new(n, |i: int| 0u8)
}

/// What the FADT holds: the flags, the reset register and its value, the DSDT's address and
/// the sleep registers; every other field is 0 but the minor version.
#[verifier::opaque]
pub open spec fn fadt_image(
    dsdt: u64,
    flags: u32,
    reset: (u64, u8),
    sleep: (u64, u64),
    vendor: u64,
) -> Seq<u8> {
    zeros(76) + le_bytes(flags as nat, 4) + io_register(reset.0) + seq![reset.1, 0, 0, 5] + zeros(8)
        + le_bytes(dsdt as nat, 8) + zeros(96) + io_register(sleep.0) + io_register(sleep.1)
        + le_bytes(vendor as nat, 8)
}

/// `FADTBuilder`, finalized and encoded: the DSDT's 64-bit address, the flags, the reset
/// register (a port) and its value, the sleep control and sleep status registers (ports) and
/// the hypervisor vendor.
#[verifier::external_body]
fn fadt_bytes(
    oem: [u8; 6],
    table: [u8; 8],
    rev: u32,
    dsdt: u64,
    flags: u32,
    reset: (u64, u8),
    sleep: (u64, u64),
    vendor: u64,
) -> (r: Vec<u8>)
    ensures
        sealed(
            r@,
            seq![0x46u8, 0x41, 0x43, 0x50],
            6,
            maker(oem@, table@, rev),
            fadt_image(dsdt, flags, reset, sleep, vendor),
        ),
{
    let mut b = FADTBuilder::new(oem, table, rev).dsdt_64(dsdt);
    b.flags = flags.into();
    b.reset_reg = GAS::new(AddressSpace::SystemIo, 8, 0, AccessSize::ByteAccess, reset.0);
    b.reset_value = reset.1;
    b.sleep_control_reg = GAS::new(AddressSpace::SystemIo, 8, 0, AccessSize::ByteAccess, sleep.0);
    b.sleep_status_reg = GAS::new(AddressSpace::SystemIo, 8, 0, AccessSize::ByteAccess, sleep.1);
    b.hypervisor_vendor_identity = vendor.into();
    let mut v = Vec::new();
    b.finalize().to_aml_bytes(&mut v);
    v
}

/// What the FADT of this machine holds.
pub open spec fn fadt_body(dsdt: u64) -> Seq<u8> {
    fadt_image(
        dsdt,
        FADT_FLAGS,
        ((ACPI_PM_PORT + RESET_REGISTER) as u64, RESET_VALUE),
        ((ACPI_PM_PORT + SLEEP_CONTROL) as u64, (ACPI_PM_PORT + SLEEP_STATUS) as u64),
        VENDOR,
    )
}

/// The FADT is 276 bytes long.
pub proof fn lemma_fadt_len(dsdt: u64)
    ensures
        fadt_body(dsdt).len() == 240,
{
    reveal(fadt_image);
    lemma_le_bytes_len(FADT_FLAGS as nat, 4);
    lemma_le_bytes_len((ACPI_PM_PORT + RESET_REGISTER) as nat, 8);
    lemma_le_bytes_len((ACPI_PM_PORT + SLEEP_CONTROL) as nat, 8);
    lemma_le_bytes_len((ACPI_PM_PORT + SLEEP_STATUS) as nat, 8);
    lemma_le_bytes_len(dsdt as nat, 8);
    lemma_le_bytes_len(VENDOR as nat, 8);
}

/// The FADT: hardware-reduced, with the reset and sleep registers of
/// [`crate::devices::legacy::AcpiPm`].
pub fn fadt(dsdt_addr: u64) -> (r: Vec<u8>)
    ensures
        sealed(
            r@,
            seq![0x46u8, 0x41, 0x43, 0x50],
            6,
            maker(OEM_ID@, OEM_TABLE@, OEM_REV),
            fadt_body(dsdt_addr),
        ),
        r@.len() == 276,
{
    let r = fadt_bytes(
        OEM_ID,
        OEM_TABLE,
        OEM_REV,
        dsdt_addr,
        FADT_FLAGS,
        (ACPI_PM_PORT + RESET_REGISTER, RESET_VALUE),
        (ACPI_PM_PORT + SLEEP_CONTROL, ACPI_PM_PORT + SLEEP_STATUS),
        VENDOR,
    );
    proof {
        lemma_fadt_len(dsdt_addr);
        lemma_sealed(
            r@,
            seq![0x46u8, 0x41, 0x43, 0x50],
            6,
            maker(OEM_ID@, OEM_TABLE@, OEM_REV),
            fadt_body(dsdt_addr),
        );
    }
    r
}

/// `Sdt` of `signature` with `body` appended, encoded.
#[verifier::external_body]
fn sdt_bytes(
    signature: [u8; 4],
    revision: u8,
    oem: [u8; 6],
    table: [u8; 8],
    rev: u32,
    body: &Vec<u8>,
) -> (r: Vec<u8>)
    requires
        body@.len() < 0x1000_0000,
    ensures
        sealed(r@, signature@, revision, maker(oem@, table@, rev), body@),
{
    let mut t = acpi_tables::sdt::Sdt::new(signature, 36, revision, oem, table, rev);
    t.append_slice(body);
    t.as_slice().to_vec()
}

/// `XSDT` with three entries, encoded.
#[verifier::external_body]
fn xsdt_bytes(
    oem: [u8; 6],
    table: [u8; 8],
    rev: u32,
    a: u64,
    b: u64,
    c: u64,
) -> (r: Vec<u8>)
    ensures
        sealed(
            r@,
            seq![0x58u8, 0x53, 0x44, 0x54],
            1,
            maker(oem@, table@, rev),
            le_bytes(a as nat, 8) + le_bytes(b as nat, 8) + le_bytes(c as nat, 8),
        ),
{
    let mut x = acpi_tables::xsdt::XSDT::new(oem, table, rev);
    x.add_entry(a);
    x.add_entry(b);
    x.add_entry(c);
    let mut v = Vec::new();
    x.to_aml_bytes(&mut v);
    v
}

/// Whether `t` is the root pointer to the XSDT at `xsdt`: both checksums add up to 0.
#[verifier::opaque]
pub open spec fn root_pointer(t: Seq<u8>, oem: Seq<u8>, xsdt: u64) -> bool {
    &&& t.len() == 36
    &&& t == seq![0x52u8, 0x53, 0x44, 0x20, 0x50, 0x54, 0x52, 0x20, t[8]] + oem + seq![2u8]
        + zeros(4) + seq![36u8, 0, 0, 0] + le_bytes(xsdt as nat, 8) + seq![t[32], 0, 0, 0]
    &&& byte_sum(t.subrange(0, 20)) % 256 == 0
    &&& byte_sum(t) % 256 == 0
}

/// `Rsdp`, encoded.
#[verifier::external_body]
fn rsdp_bytes(oem: [u8; 6], xsdt: u64) -> (r: Vec<u8>)
    ensures
        root_pointer(r@, oem@, xsdt),
{
    let mut v = Vec::new();
    acpi_tables::rsdp::Rsdp::new(oem, xsdt).to_aml_bytes(&mut v);
    v
}

/// The next multiple of 8.
pub open spec fn up8(a: int) -> int {
    (a + 7) / 8 * 8
}

/// Where the XSDT goes: behind the 36 bytes of the RSDP.
pub open spec fn xsdt_at() -> int {
    up8(x86::ACPI_ADDR + 36)
}

/// Where the FADT goes: behind the XSDT with its three entries.
pub open spec fn fadt_at() -> int {
    up8(xsdt_at() + 60)
}

/// Where the DSDT goes: behind the 276 bytes of the FADT.
pub open spec fn dsdt_at() -> int {
    up8(fadt_at() + 276)
}

/// Where the MADT goes: behind the DSDT.
pub open spec fn madt_at(cpus_max: u32) -> int {
    up8(dsdt_at() + 36 + dsdt_image(cpus_max).len())
}

/// Where the tables end.
pub open spec fn tables_end(cpus_max: u32) -> int {
    madt_at(cpus_max) + 56 + 8 * cpus_max
}

/// The tables for `cpus_max` possible vCPUs, `cpus` of them enabled, in their places.
#[verifier::opaque]
pub open spec fn tables_placed(t: Seq<Placed>, cpus: u32, cpus_max: u32) -> bool {
    let by = maker(OEM_ID@, OEM_TABLE@, OEM_REV);
    &&& t.len() == 5
    &&& t[0].0 == x86::ACPI_ADDR && t[1].0 == xsdt_at() && t[2].0 == fadt_at() && t[3].0
        == dsdt_at() && t[4].0 == madt_at(cpus_max)
    &&& root_pointer(t[0].1@, OEM_ID@, t[1].0)
    &&& sealed(
        t[1].1@,
        seq![0x58u8, 0x53, 0x44, 0x54],
        1,
        by,
        le_bytes(t[2].0 as nat, 8) + le_bytes(t[4].0 as nat, 8) + le_bytes(t[3].0 as nat, 8),
    )
    &&& sealed(t[2].1@, seq![0x46u8, 0x41, 0x43, 0x50], 6, by, fadt_body(t[3].0))
    &&& sealed(t[3].1@, seq![0x44u8, 0x53, 0x44, 0x54], 6, by, dsdt_image(cpus_max))
    &&& sealed(t[4].1@, seq![0x41u8, 0x50, 0x49, 0x43], 1, by, madt_image(cpus, cpus_max))
}

proof fn lemma_root_pointer(t: Seq<u8>, oem: Seq<u8>, xsdt: u64)
    requires
        root_pointer(t, oem, xsdt),
    ensures
        t.len() == 36,
        byte_sum(t) % 256 == 0,
{
    reveal(root_pointer);
}

proof fn lemma_links_len(a: u64, b: u64, c: u64)
    ensures
        (le_bytes(a as nat, 8) + le_bytes(b as nat, 8) + le_bytes(c as nat, 8)).len() == 24,
{
    lemma_le_bytes_len(a as nat, 8);
    lemma_le_bytes_len(b as nat, 8);
    lemma_le_bytes_len(c as nat, 8);
}

proof fn lemma_madt_len(cpus: u32, cpus_max: u32)
    ensures
        madt_image(cpus, cpus_max).len() == 20 + 8 * cpus_max,
{
    lemma_le_bytes_len(x86::LAPIC_ADDR as nat, 4);
    lemma_le_bytes_len(x86::IOAPIC_ADDR as nat, 4);
    lemma_le_bytes_len(0, 4);
    lemma_lapics_len(cpus, cpus_max as nat);
}

/// How long each table is, where it stands, and that its bytes add up to 0.
pub proof fn lemma_table_lens(t: Seq<Placed>, cpus: u32, cpus_max: u32)
    requires
        tables_placed(t, cpus, cpus_max),
    ensures
        t.len() == 5,
        t[0].0 == x86::ACPI_ADDR,
        t[1].0 == xsdt_at(),
        t[2].0 == fadt_at(),
        t[3].0 == dsdt_at(),
        t[4].0 == madt_at(cpus_max),
        t[0].1@.len() == 36,
        t[1].1@.len() == 60,
        t[2].1@.len() == 276,
        t[3].1@.len() == 36 + dsdt_image(cpus_max).len(),
        t[4].1@.len() == 56 + 8 * cpus_max,
        byte_sum(t[0].1@) % 256 == 0,
        byte_sum(t[1].1@) % 256 == 0,
        byte_sum(t[2].1@) % 256 == 0,
        byte_sum(t[3].1@) % 256 == 0,
        byte_sum(t[4].1@) % 256 == 0,
{
    reveal(tables_placed);
    let by = maker(OEM_ID@, OEM_TABLE@, OEM_REV);
    let links = le_bytes(t[2].0 as nat, 8) + le_bytes(t[4].0 as nat, 8) + le_bytes(
        t[3].0 as nat,
        8,
    );
    lemma_links_len(t[2].0, t[4].0, t[3].0);
    lemma_fadt_len(t[3].0);
    lemma_madt_len(cpus, cpus_max);
    lemma_root_pointer(t[0].1@, OEM_ID@, t[1].0);
    lemma_sealed(t[1].1@, seq![0x58u8, 0x53, 0x44, 0x54], 1, by, links);
    lemma_sealed(t[2].1@, seq![0x46u8, 0x41, 0x43, 0x50], 6, by, fadt_body(t[3].0));
    lemma_sealed(t[3].1@, seq![0x44u8, 0x53, 0x44, 0x54], 6, by, dsdt_image(cpus_max));
    lemma_sealed(t[4].1@, seq![0x41u8, 0x50, 0x49, 0x43], 1, by, madt_image(cpus, cpus_max));
}

/// No table reaches into the next, and all lie where the kernel scans.
pub proof fn law_tables_do_not_overlap(t: Seq<Placed>, cpus: u32, cpus_max: u32)
    requires
        tables_placed(t, cpus, cpus_max),
        tables_end(cpus_max) <= x86::ACPI_ADDR + x86::ACPI_MAX,
    ensures
        forall|i: int, j: int|
            0 <= i < j < 5 ==> (#[trigger] t[i]).0 + t[i].1@.len() <= (#[trigger] t[j]).0,
        forall|i: int|
            0 <= i < 5 ==> x86::ACPI_ADDR <= (#[trigger] t[i]).0 && t[i].0 % 8 == 0 && t[i].0
                + t[i].1@.len() <= x86::ACPI_ADDR + x86::ACPI_MAX,
{
    lemma_table_lens(t, cpus, cpus_max);
}

/// Every table's bytes add up to 0.
pub proof fn law_tables_have_checksums(t: Seq<Placed>, cpus: u32, cpus_max: u32)
    requires
        tables_placed(t, cpus, cpus_max),
    ensures
        forall|i: int| 0 <= i < 5 ==> byte_sum((#[trigger] t[i]).1@) % 256 == 0,
{
    lemma_table_lens(t, cpus, cpus_max);
}

/// Every table, placed from [`x86::ACPI_ADDR`] up: RSDP first (where the kernel finds it),
/// then XSDT, FADT, DSDT and MADT, each 8-byte aligned.
pub fn tables(cpus: u32, cpus_max: u32) -> (r: Result<Vec<Placed>>)
    requires
        cpus_max <= MAX_NAMED,
    ensures
        r is Ok <==> tables_end(cpus_max) <= x86::ACPI_ADDR + x86::ACPI_MAX,
        r matches Ok(t) ==> tables_placed(t@, cpus, cpus_max),
        r matches Err(e) ==> e@ == (VmmErrorView::Config {
            field: "--cpus-max"@,
            msg: "the ACPI tables do not fit below 1 MiB"@,
        }),
{
    let xsdt_addr = (x86::ACPI_ADDR + 36 + 7) / 8 * 8;
    let fadt_addr = (xsdt_addr + 60 + 7) / 8 * 8;
    let dsdt_addr = (fadt_addr + 276 + 7) / 8 * 8;
    let body = dsdt(cpus_max);
    let dsdt_table = sdt_bytes(
        [0x44, 0x53, 0x44, 0x54],
        6,
        OEM_ID,
        OEM_TABLE,
        OEM_REV,
        &body,
    );
    proof {
        assert([0x44u8, 0x53, 0x44, 0x54]@ =~= seq![0x44u8, 0x53, 0x44, 0x54]);
        lemma_sealed(
            dsdt_table@,
            seq![0x44u8, 0x53, 0x44, 0x54],
            6,
            maker(OEM_ID@, OEM_TABLE@, OEM_REV),
            dsdt_image(cpus_max),
        );
    }
    let madt_addr = (dsdt_addr + dsdt_table.len() as u64 + 7) / 8 * 8;
    let madt_table = madt(cpus, cpus_max);
    let end = madt_addr + madt_table.len() as u64;
    if end > x86::ACPI_ADDR + x86::ACPI_MAX {
        return Err(VmmError::config("--cpus-max", "the ACPI tables do not fit below 1 MiB"));
    }
    let rsdp = rsdp_bytes(OEM_ID, xsdt_addr);
    let xsdt = xsdt_bytes(OEM_ID, OEM_TABLE, OEM_REV, fadt_addr, madt_addr, dsdt_addr);
    let fadt_table = fadt(dsdt_addr);
    let mut placed: Vec<Placed> = Vec::new();
    placed.push((x86::ACPI_ADDR, rsdp));
    placed.push((xsdt_addr, xsdt));
    placed.push((fadt_addr, fadt_table));
    placed.push((dsdt_addr, dsdt_table));
    placed.push((madt_addr, madt_table));
    reveal(tables_placed);
    Ok(placed)
}

} // verus!
