//! AML, the byte code of the DSDT: each object as the bytes it is encoded to.
//!
//! Objects made of plain values are encoded by the `acpi_tables` crate. Objects that hold other
//! objects are put together here from the encodings of what they hold.

use crate::bytes::{le_bytes, push_le};
use acpi_tables::aml::{FieldAccessType, FieldEntry, FieldLockRule, FieldUpdateRule, OpRegionSpace};
use acpi_tables::Aml;
use vstd::prelude::*;

verus! {

/// How a field's accesses are sized.
#[verifier::external_type_specification]
pub struct ExFieldAccessType(acpi_tables::aml::FieldAccessType);

/// Whether a field takes the global lock.
#[verifier::external_type_specification]
pub struct ExFieldLockRule(acpi_tables::aml::FieldLockRule);

/// What a field's write does to the bits around it.
#[verifier::external_type_specification]
pub struct ExFieldUpdateRule(acpi_tables::aml::FieldUpdateRule);

/// A named or reserved run of bits in a field.
#[verifier::external_type_specification]
pub struct ExFieldEntry(acpi_tables::aml::FieldEntry);

/// The address space of an operation region.
#[verifier::external_type_specification]
pub struct ExOpRegionSpace(acpi_tables::aml::OpRegionSpace);

/// A character a name segment may hold here: ASCII, and neither separator.
pub open spec fn plain(c: char) -> bool {
    (c as u32) < 128 && c != '.' && c != '\\'
}

/// Whether a name segment stands at `at`.
pub open spec fn segment_ok(s: Seq<char>, at: int) -> bool {
    plain(s[at]) && plain(s[at + 1]) && plain(s[at + 2]) && plain(s[at + 3])
}

/// The bytes of the name segment at `at`.
pub open spec fn segment_bytes(s: Seq<char>, at: int) -> Seq<u8> {
    seq![s[at] as u8, s[at + 1] as u8, s[at + 2] as u8, s[at + 3] as u8]
}

/// A name: one segment, one segment under the root, or three segments under the root.
#[verifier::opaque]
pub open spec fn name_ok(s: Seq<char>) -> bool {
    ||| s.len() == 4 && segment_ok(s, 0)
    ||| s.len() == 5 && s[0] == '\\' && segment_ok(s, 1)
    ||| s.len() == 15 && s[0] == '\\' && segment_ok(s, 1) && s[5] == '.' && segment_ok(s, 6)
        && s[10] == '.' && segment_ok(s, 11)
}

/// The encoding of a name.
#[verifier::opaque]
pub open spec fn name_image(s: Seq<char>) -> Seq<u8> {
    if s.len() == 4 {
        segment_bytes(s, 0)
    } else if s.len() == 5 {
        seq![0x5cu8] + segment_bytes(s, 1)
    } else {
        seq![0x5cu8, 0x2f, 3] + segment_bytes(s, 1) + segment_bytes(s, 6) + segment_bytes(s, 11)
    }
}

/// A name is encoded in at most 15 bytes.
pub proof fn lemma_name_len(s: Seq<char>)
    requires
        name_ok(s),
    ensures
        name_image(s).len() <= 15,
        s.len() == 4 ==> name_image(s).len() == 4,
{
    reveal(name_ok);
    reveal(name_image);
}

/// `acpi_tables::aml::Path` of `s`, encoded: the segments' characters, behind the root prefix
/// where `s` starts with it and the multi-name prefix where there are three.
#[verifier::external_body]
pub(crate) fn name_code(s: &str) -> (r: Vec<u8>)
    requires
        name_ok(s@),
    ensures
        r@ == name_image(s@),
{
    let mut v = Vec::new();
    acpi_tables::aml::Path::new(s).to_aml_bytes(&mut v);
    v
}

/// The encoding of a number: the shortest form that holds it.
#[verifier::opaque]
pub open spec fn number_image(n: u32) -> Seq<u8> {
    if n <= 1 {
        seq![n as u8]
    } else if n <= 0xff {
        seq![0x0au8, n as u8]
    } else if n <= 0xffff {
        seq![0x0bu8] + le_bytes(n as nat, 2)
    } else {
        seq![0x0cu8] + le_bytes(n as nat, 4)
    }
}

/// `u32` as an `acpi_tables` object, encoded: the shortest form that holds the number.
#[verifier::external_body]
pub(crate) fn number_code(n: u32) -> (r: Vec<u8>)
    ensures
        r@ == number_image(n),
{
    let mut v = Vec::new();
    n.to_aml_bytes(&mut v);
    v
}

/// Whether a text is ASCII.
pub open spec fn ascii(s: Seq<char>) -> bool {
    forall|i: int| 0 <= i < s.len() ==> (#[trigger] s[i] as u32) < 128
}

/// The encoding of a text: its characters between the string prefix and a zero byte.
#[verifier::opaque]
pub open spec fn text_image(s: Seq<char>) -> Seq<u8> {
    seq![0x0du8] + Seq::new(s.len(), |i: int| s[i] as u8) + seq![0u8]
}

/// `String` as an `acpi_tables` object, encoded.
#[verifier::external_body]
pub(crate) fn text_code(s: &str) -> (r: Vec<u8>)
    requires
        ascii(s@),
    ensures
        r@ == text_image(s@),
{
    let mut v = Vec::new();
    s.to_owned().to_aml_bytes(&mut v);
    v
}

/// The value of a hexadecimal digit, upper case.
pub open spec fn hex_value(c: char) -> int {
    if '0' <= c && c <= '9' {
        c as u32 - 0x30
    } else {
        c as u32 - 0x37
    }
}

/// A hexadecimal digit, upper case.
pub open spec fn hex_digit(c: char) -> bool {
    '0' <= c && c <= '9' || 'A' <= c && c <= 'F'
}

/// Whether a text is an EISA id: three upper-case letters and four hexadecimal digits.
pub open spec fn eisa_ok(s: Seq<char>) -> bool {
    &&& s.len() == 7
    &&& 'A' <= s[0] && s[0] <= 'Z'
    &&& 'A' <= s[1] && s[1] <= 'Z'
    &&& 'A' <= s[2] && s[2] <= 'Z'
    &&& hex_digit(s[3]) && hex_digit(s[4]) && hex_digit(s[5]) && hex_digit(s[6])
}

/// An EISA id packed into 32 bits: five bits a letter, four a digit.
pub open spec fn eisa_value(s: Seq<char>) -> int {
    (s[0] as u32 - 0x40) * 0x400_0000 + (s[1] as u32 - 0x40) * 0x20_0000 + (s[2] as u32 - 0x40)
        * 0x1_0000 + hex_value(s[3]) * 0x1000 + hex_value(s[4]) * 0x100 + hex_value(s[5]) * 0x10
        + hex_value(s[6])
}

/// A 32-bit number with its bytes reversed.
pub open spec fn swapped(v: int) -> int {
    v % 256 * 0x100_0000 + v / 256 % 256 * 0x1_0000 + v / 0x1_0000 % 256 * 256 + v / 0x100_0000
        % 256
}

/// `acpi_tables::aml::EISAName` of `s`, encoded: the packed id, bytes reversed, as a number.
#[verifier::external_body]
pub(crate) fn eisa_code(s: &str) -> (r: Vec<u8>)
    requires
        eisa_ok(s@),
    ensures
        r@ == number_image(swapped(eisa_value(s@)) as u32),
{
    let mut v = Vec::new();
    acpi_tables::aml::EISAName::new(s).to_aml_bytes(&mut v);
    v
}

/// The encoding of a buffer holding one interrupt descriptor and the end tag.
#[verifier::opaque]
pub open spec fn interrupt_image(
    consumer: bool,
    edge: bool,
    low: bool,
    shared: bool,
    number: u32,
) -> Seq<u8> {
    let flags = (if consumer { 1int } else { 0 }) + (if edge { 2int } else { 0 }) + (if low {
        4int
    } else {
        0
    }) + (if shared { 8int } else { 0 });
    seq![0x11u8, 14, 0x0a, 11, 0x89, 6, 0, flags as u8, 1] + le_bytes(number as nat, 4) + seq![
        0x79u8,
        0,
    ]
}

/// `acpi_tables::aml::ResourceTemplate` of one `Interrupt`, encoded.
#[verifier::external_body]
pub(crate) fn interrupt_code(
    consumer: bool,
    edge: bool,
    low: bool,
    shared: bool,
    number: u32,
) -> (r: Vec<u8>)
    ensures
        r@ == interrupt_image(consumer, edge, low, shared, number),
{
    let mut v = Vec::new();
    let irq = acpi_tables::aml::Interrupt::new(consumer, edge, low, shared, number);
    acpi_tables::aml::ResourceTemplate::new(vec![&irq]).to_aml_bytes(&mut v);
    v
}

/// The flag byte of a field.
pub open spec fn field_flags(
    access: FieldAccessType,
    lock: FieldLockRule,
    update: FieldUpdateRule,
) -> int {
    (match access {
        FieldAccessType::Any => 0int,
        FieldAccessType::Byte => 1,
        FieldAccessType::Word => 2,
        FieldAccessType::DWord => 3,
        FieldAccessType::QWord => 4,
        FieldAccessType::Buffer => 5,
    }) + (match lock {
        FieldLockRule::NoLock => 0int,
        FieldLockRule::Lock => 0x10,
    }) + (match update {
        FieldUpdateRule::Preserve => 0int,
        FieldUpdateRule::WriteAsOnes => 0x20,
        FieldUpdateRule::WriteAsZeroes => 0x40,
    })
}

/// The encoding of a field's entries: each one's name, or a zero byte, and its bits.
pub open spec fn entries_image(e: Seq<FieldEntry>) -> Seq<u8>
    decreases e.len(),
{
    if e.len() == 0 {
        Seq::empty()
    } else {
        entries_image(e.drop_last()) + (match e.last() {
            FieldEntry::Named(name, bits) => name@ + seq![bits as u8],
            FieldEntry::Reserved(bits) => seq![0u8, bits as u8],
        })
    }
}

/// Whether every entry is short enough for a length of one byte.
pub open spec fn entries_ok(e: Seq<FieldEntry>) -> bool {
    forall|i: int| 0 <= i < e.len() ==> (match #[trigger] e[i] {
        FieldEntry::Named(_, bits) => bits < 63,
        FieldEntry::Reserved(bits) => bits < 63,
    })
}

/// The encoding of a field of the region `region`.
pub open spec fn field_image(region: Seq<char>, flags: int, e: Seq<FieldEntry>) -> Seq<u8> {
    enclosed_image(seq![0x5bu8, 0x81], name_image(region) + seq![flags as u8] + entries_image(e))
}

/// `acpi_tables::aml::Field`, encoded.
#[verifier::external_body]
pub(crate) fn field_code(
    region: &str,
    access: FieldAccessType,
    lock: FieldLockRule,
    update: FieldUpdateRule,
    entries: Vec<FieldEntry>,
) -> (r: Vec<u8>)
    requires
        name_ok(region@),
        entries_ok(entries@),
        entries@.len() < 1000,
    ensures
        r@ == field_image(region@, field_flags(access, lock, update), entries@),
{
    let mut v = Vec::new();
    let path = acpi_tables::aml::Path::new(region);
    acpi_tables::aml::Field::new(path, access, lock, update, entries).to_aml_bytes(&mut v);
    v
}

/// The number of an address space.
pub open spec fn space_number(s: OpRegionSpace) -> u8 {
    match s {
        OpRegionSpace::SystemMemory => 0,
        OpRegionSpace::SystemIO => 1,
        OpRegionSpace::PCIConfig => 2,
        OpRegionSpace::EmbeddedControl => 3,
        OpRegionSpace::SMBus => 4,
        OpRegionSpace::SystemCMOS => 5,
        OpRegionSpace::PciBarTarget => 6,
        OpRegionSpace::IPMI => 7,
        OpRegionSpace::GeneralPurposeIO => 8,
        OpRegionSpace::GenericSerialBus => 9,
    }
}

/// `acpi_tables::aml::OpRegion`, encoded.
#[verifier::external_body]
pub(crate) fn region_code(name: &str, space: OpRegionSpace, at: u32, len: u32) -> (r: Vec<u8>)
    requires
        name_ok(name@),
    ensures
        r@ == seq![0x5bu8, 0x80] + name_image(name@) + seq![space_number(space)] + number_image(at)
            + number_image(len),
{
    let mut v = Vec::new();
    let path = acpi_tables::aml::Path::new(name);
    acpi_tables::aml::OpRegion::new(path, space, &at, &len).to_aml_bytes(&mut v);
    v
}

/// `acpi_tables::aml::Mutex`, encoded.
#[verifier::external_body]
pub(crate) fn mutex_code(name: &str, level: u8) -> (r: Vec<u8>)
    requires
        name_ok(name@),
    ensures
        r@ == seq![0x5bu8, 1] + name_image(name@) + seq![level],
{
    let mut v = Vec::new();
    let path = acpi_tables::aml::Path::new(name);
    acpi_tables::aml::Mutex::new(path, level).to_aml_bytes(&mut v);
    v
}

/// `acpi_tables::aml::Acquire`, encoded.
#[verifier::external_body]
pub(crate) fn acquire_code(name: &str, timeout: u16) -> (r: Vec<u8>)
    requires
        name_ok(name@),
    ensures
        r@ == seq![0x5bu8, 0x23] + name_image(name@) + le_bytes(timeout as nat, 2),
{
    let mut v = Vec::new();
    let path = acpi_tables::aml::Path::new(name);
    acpi_tables::aml::Acquire::new(path, timeout).to_aml_bytes(&mut v);
    v
}

/// `acpi_tables::aml::Release`, encoded.
#[verifier::external_body]
pub(crate) fn release_code(name: &str) -> (r: Vec<u8>)
    requires
        name_ok(name@),
    ensures
        r@ == seq![0x5bu8, 0x27] + name_image(name@),
{
    let mut v = Vec::new();
    acpi_tables::aml::Release::new(acpi_tables::aml::Path::new(name)).to_aml_bytes(&mut v);
    v
}

/// The encoding of a buffer of `data`.
pub open spec fn buffer_image(data: Seq<u8>) -> Seq<u8> {
    enclosed_image(seq![0x11u8], number_image(data.len() as u32) + data)
}

/// `acpi_tables::aml::BufferData`, encoded.
#[verifier::external_body]
pub(crate) fn buffer_code(data: Vec<u8>) -> (r: Vec<u8>)
    requires
        data@.len() < 0x100_0000,
    ensures
        r@ == buffer_image(data@),
{
    let mut v = Vec::new();
    acpi_tables::aml::BufferData::new(data).to_aml_bytes(&mut v);
    v
}

/// `acpi_tables::aml::Package` of two numbers, encoded.
#[verifier::external_body]
pub(crate) fn pair_code(a: u8, b: u8) -> (r: Vec<u8>)
    ensures
        r@ == enclosed_image(seq![0x12u8], seq![2u8] + number_image(a as u32) + number_image(b as u32)),
{
    let mut v = Vec::new();
    acpi_tables::aml::Package::new(vec![&a, &b]).to_aml_bytes(&mut v);
    v
}

/// `acpi_tables::aml::Scope::raw`: the scope `name` holding the encoded objects `inner`.
#[verifier::external_body]
pub(crate) fn scope_code(name: &str, inner: Vec<u8>) -> (r: Vec<u8>)
    requires
        name_ok(name@),
        inner@.len() < 0x100_0000,
    ensures
        r@ == enclosed_image(seq![0x10u8], name_image(name@) + inner@),
{
    acpi_tables::aml::Scope::raw(acpi_tables::aml::Path::new(name), inner)
}

/// How many bytes the length of an object of `n` further bytes takes.
pub open spec fn length_bytes(n: nat) -> nat {
    if n < 63 {
        1
    } else if n < 4094 {
        2
    } else if n < 0xf_fffd {
        3
    } else {
        4
    }
}

/// The length in front of `n` bytes: it counts itself, and past one byte its first four bits
/// stand in the lead byte.
pub open spec fn length_image(n: nat) -> Seq<u8> {
    let k = length_bytes(n);
    let total = n + k;
    if k == 1 {
        seq![total as u8]
    } else {
        seq![((k - 1) * 64 + total % 16) as u8] + le_bytes(total / 16, (k - 1) as nat)
    }
}

/// An object that holds `body`, behind its operator and the length.
#[verifier::opaque]
pub open spec fn enclosed_image(op: Seq<u8>, body: Seq<u8>) -> Seq<u8> {
    op + length_image(body.len()) + body
}

/// An object that holds `body`, behind its operator `op` of one byte and the length.
pub fn enclosed(op: u8, body: &Vec<u8>) -> (r: Vec<u8>)
    requires
        body@.len() < 0x100_0000,
    ensures
        r@ == enclosed_image(seq![op], body@),
        r@.len() <= body@.len() + 5,
{
    let mut out: Vec<u8> = Vec::new();
    out.push(op);
    assert(out@ =~= seq![op]);
    proof {
        lemma_enclosed_len(seq![op], body@);
    }
    behind(out, body)
}

fn behind(op: Vec<u8>, body: &Vec<u8>) -> (r: Vec<u8>)
    requires
        body@.len() < 0x100_0000,
    ensures
        r@ == enclosed_image(op@, body@),
{
    reveal(enclosed_image);
    let mut out = op;
    let n = body.len() as u64;
    if n < 63 {
        out.push((n + 1) as u8);
        assert(out@ =~= op@ + length_image(n as nat));
    } else {
        let k: u64 = if n < 4094 {
            2
        } else if n < 0xf_fffd {
            3
        } else {
            4
        };
        let total = n + k;
        out.push(((k - 1) * 64 + total % 16) as u8);
        push_le(&mut out, total / 16, (k - 1) as usize);
        assert(out@ =~= op@ + length_image(n as nat));
    }
    out.extend_from_slice(body.as_slice());
    out
}

/// An operator and what it is applied to, one after the other.
pub fn applied(op: u8, a: &Vec<u8>, b: &Vec<u8>) -> (r: Vec<u8>)
    ensures
        r@ == seq![op] + a@ + b@,
{
    let mut out: Vec<u8> = Vec::new();
    out.push(op);
    out.extend_from_slice(a.as_slice());
    out.extend_from_slice(b.as_slice());
    assert(out@ =~= seq![op] + a@ + b@);
    out
}

/// The argument `i` of a method.
pub open spec fn arg_image(i: int) -> Seq<u8> {
    seq![(0x68 + i) as u8]
}

/// The local variable `i` of a method.
pub open spec fn local_image(i: int) -> Seq<u8> {
    seq![(0x60 + i) as u8]
}

/// Assign `value` to `target`.
pub open spec fn store_image(target: Seq<u8>, value: Seq<u8>) -> Seq<u8> {
    seq![0x70u8] + value + target
}

/// Whether `a` equals `b`.
pub open spec fn equal_image(a: Seq<u8>, b: Seq<u8>) -> Seq<u8> {
    seq![0x93u8] + a + b
}

/// Whether `a` is less than `b`.
pub open spec fn less_image(a: Seq<u8>, b: Seq<u8>) -> Seq<u8> {
    seq![0x95u8] + a + b
}

/// Assign `a` plus `b` to `target`.
pub open spec fn add_image(target: Seq<u8>, a: Seq<u8>, b: Seq<u8>) -> Seq<u8> {
    seq![0x72u8] + a + b + target
}

/// Tell `object` of the event `value`.
pub open spec fn notify_image(object: Seq<u8>, value: Seq<u8>) -> Seq<u8> {
    seq![0x86u8] + object + value
}

/// Return `value`.
pub open spec fn return_image(value: Seq<u8>) -> Seq<u8> {
    seq![0xa4u8] + value
}

/// Do `body` if `test` holds.
pub open spec fn if_image(test: Seq<u8>, body: Seq<u8>) -> Seq<u8> {
    enclosed_image(seq![0xa0u8], test + body)
}

/// Do `body` while `test` holds.
pub open spec fn while_image(test: Seq<u8>, body: Seq<u8>) -> Seq<u8> {
    enclosed_image(seq![0xa2u8], test + body)
}

/// The object `name` holding `value`.
pub open spec fn named_image(name: Seq<char>, value: Seq<u8>) -> Seq<u8> {
    seq![0x08u8] + name_image(name) + value
}

/// The method `name` of `args` arguments, serialized or not.
pub open spec fn method_image(
    name: Seq<char>,
    args: int,
    serialized: bool,
    body: Seq<u8>,
) -> Seq<u8> {
    enclosed_image(
        seq![0x14u8],
        name_image(name) + seq![(args + if serialized { 8int } else { 0 }) as u8] + body,
    )
}

/// The device `name` holding the encoded objects `body`.
pub open spec fn device_image(name: Seq<char>, body: Seq<u8>) -> Seq<u8> {
    enclosed_image(seq![0x5bu8, 0x82], name_image(name) + body)
}

/// The object `name` holding `value`, encoded.
pub fn named(name: &str, value: &Vec<u8>) -> (r: Vec<u8>)
    requires
        name_ok(name@),
    ensures
        r@ == named_image(name@, value@),
        r@.len() <= value@.len() + 16,
{
    proof {
        lemma_name_len(name@);
    }
    let n = name_code(name);
    applied(0x08, &n, value)
}

/// The concatenation of two encodings.
pub fn joined(a: &Vec<u8>, b: &Vec<u8>) -> (r: Vec<u8>)
    ensures
        r@ == a@ + b@,
        r@.len() == a@.len() + b@.len(),
{
    let mut out = a.clone();
    out.extend_from_slice(b.as_slice());
    assert(out@ =~= a@ + b@);
    out
}

/// The method `name`, encoded.
pub fn method(name: &str, args: u8, serialized: bool, body: &Vec<u8>) -> (r: Vec<u8>)
    requires
        name_ok(name@),
        args <= 7,
        body@.len() < 0xff_0000,
    ensures
        r@ == method_image(name@, args as int, serialized, body@),
        r@.len() <= body@.len() + 21,
{
    proof {
        lemma_name_len(name@);
    }
    let mut inner = name_code(name);
    inner.push(
        args + if serialized {
            8u8
        } else {
            0
        },
    );
    inner.extend_from_slice(body.as_slice());
    assert(inner@ =~= name_image(name@) + seq![(args + if serialized { 8int } else { 0 }) as u8]
        + body@);
    enclosed(0x14, &inner)
}

/// The device `name`, encoded.
pub fn device(name: &str, body: &Vec<u8>) -> (r: Vec<u8>)
    requires
        name_ok(name@),
        body@.len() < 0xff_0000,
    ensures
        r@ == device_image(name@, body@),
        r@.len() <= body@.len() + 21,
{
    proof {
        lemma_name_len(name@);
        lemma_enclosed_len(seq![0x5bu8, 0x82], name_image(name@) + body@);
    }
    let n = name_code(name);
    let inner = joined(&n, body);
    let op = vec![0x5bu8, 0x82];
    assert(op@ =~= seq![0x5bu8, 0x82]);
    behind(op, &inner)
}

/// One byte as an encoding.
pub fn byte(b: u8) -> (r: Vec<u8>)
    ensures
        r@ == seq![b],
{
    let mut out: Vec<u8> = Vec::new();
    out.push(b);
    assert(out@ =~= seq![b]);
    out
}

/// Assign `value` to `target`, encoded.
pub fn store(target: &Vec<u8>, value: &Vec<u8>) -> (r: Vec<u8>)
    ensures
        r@ == store_image(target@, value@),
        r@.len() == target@.len() + value@.len() + 1,
{
    applied(0x70, value, target)
}

/// Whether `a` equals `b`, encoded.
pub fn equal(a: &Vec<u8>, b: &Vec<u8>) -> (r: Vec<u8>)
    ensures
        r@ == equal_image(a@, b@),
        r@.len() == a@.len() + b@.len() + 1,
{
    applied(0x93, a, b)
}

/// Whether `a` is less than `b`, encoded.
pub fn less(a: &Vec<u8>, b: &Vec<u8>) -> (r: Vec<u8>)
    ensures
        r@ == less_image(a@, b@),
        r@.len() == a@.len() + b@.len() + 1,
{
    applied(0x95, a, b)
}

/// Assign `a` plus `b` to `target`, encoded.
pub fn sum(target: &Vec<u8>, a: &Vec<u8>, b: &Vec<u8>) -> (r: Vec<u8>)
    ensures
        r@ == add_image(target@, a@, b@),
        r@.len() == target@.len() + a@.len() + b@.len() + 1,
{
    let both = applied(0x72, a, b);
    joined(&both, target)
}

/// Tell `object` of the event `value`, encoded.
pub fn notify(object: &Vec<u8>, value: &Vec<u8>) -> (r: Vec<u8>)
    ensures
        r@ == notify_image(object@, value@),
        r@.len() == object@.len() + value@.len() + 1,
{
    applied(0x86, object, value)
}

/// Return `value`, encoded.
pub fn returned(value: &Vec<u8>) -> (r: Vec<u8>)
    ensures
        r@ == return_image(value@),
        r@.len() == value@.len() + 1,
{
    let op = byte(0xa4);
    joined(&op, value)
}

/// Do `body` if `test` holds, encoded.
pub fn if_holds(test: &Vec<u8>, body: &Vec<u8>) -> (r: Vec<u8>)
    requires
        test@.len() + body@.len() < 0x100_0000,
    ensures
        r@ == if_image(test@, body@),
        r@.len() <= test@.len() + body@.len() + 5,
{
    let inner = joined(test, body);
    enclosed(0xa0, &inner)
}

/// Do `body` while `test` holds, encoded.
pub fn while_holds(test: &Vec<u8>, body: &Vec<u8>) -> (r: Vec<u8>)
    requires
        test@.len() + body@.len() < 0x100_0000,
    ensures
        r@ == while_image(test@, body@),
        r@.len() <= test@.len() + body@.len() + 5,
{
    let inner = joined(test, body);
    enclosed(0xa2, &inner)
}

/// An object's length takes at most four bytes.
pub proof fn lemma_enclosed_len(op: Seq<u8>, body: Seq<u8>)
    ensures
        op.len() + body.len() < enclosed_image(op, body).len() <= op.len() + body.len() + 4,
{
    reveal(enclosed_image);
    let k = length_bytes(body.len());
    crate::bytes::lemma_le_bytes_len((body.len() + k) / 16, (k - 1) as nat);
}

} // verus!
