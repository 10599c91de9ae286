//! The aarch64 device tree: CPUs, memory, the GIC, the timer, PSCI, the console and the
//! virtio-mmio devices. There is no network node because there is no network device.
//!
//! A tree is described by the steps that write it; `vm-fdt` turns them into the blob.

pub mod laws;

use crate::boot::arm64_mpidr;
use crate::error::{Result, VmmError, VmmErrorView};
use crate::layout::{arm, Layout, Slot, MMIO_WINDOW};
use crate::text::{cat2, digit_char, digits, push_digits};
use vm_fdt::{Error, FdtWriter, FdtWriterNode};
use vstd::prelude::*;

verus! {

/// Which GIC the host's KVM gave the guest. The Raspberry Pi 5's GIC-400 is v2 only.
#[derive(Clone, Copy, Debug, PartialEq, Eq, Structural)]
pub enum GicVersion {
    /// GICv2: distributor and CPU interface.
    V2,
    /// GICv3: distributor and one redistributor per vCPU.
    V3,
}

/// Everything the device tree describes.
#[derive(Clone, Debug)]
pub struct FdtSpec<'a> {
    /// The memory map.
    pub layout: &'a Layout,
    /// vCPUs (each gets an MPIDR equal to its index).
    pub cpus: u32,
    /// The GIC.
    pub gic: GicVersion,
    /// The kernel command line.
    pub cmdline: &'a str,
    /// The initramfs, `(start, len)`.
    pub initrd: Option<(u64, u64)>,
    /// The virtio-mmio devices.
    pub virtio: &'a [Slot],
}

/// The GIC's handle.
pub const PHANDLE_GIC: u32 = 1;

/// The clock's handle.
pub const PHANDLE_CLOCK: u32 = 2;

/// GIC interrupt specifier: SPI.
pub const GIC_SPI: u32 = 0;

/// GIC interrupt specifier: PPI.
pub const GIC_PPI: u32 = 1;

/// Level, active high.
pub const IRQ_LEVEL_HI: u32 = 4;

/// Edge, rising.
pub const IRQ_EDGE_RISING: u32 = 1;

/// What a property holds.
pub enum Value {
    Nothing,
    Text(Seq<char>),
    Texts(Seq<Seq<char>>),
    Word(u32),
    Long(u64),
    Words(Seq<u32>),
    Longs(Seq<u64>),
}

/// One step of writing a tree.
pub enum Step {
    /// A node begins.
    Begin(Seq<char>),
    /// The node has this property.
    Property(Seq<char>, Value),
    /// Others refer to the node by this handle.
    Handle(u32),
    /// The node ends.
    End,
}

/// A device tree being written.
#[verifier::external_type_specification]
#[verifier::external_body]
pub struct ExFdtWriter(vm_fdt::FdtWriter);

/// A node that has begun and not ended.
#[verifier::external_type_specification]
#[verifier::external_body]
pub struct ExFdtWriterNode(vm_fdt::FdtWriterNode);

/// Why a step was refused.
#[verifier::external_type_specification]
pub struct ExFdtError(vm_fdt::Error);

/// The steps taken so far.
pub uninterp spec fn tree_steps(f: FdtWriter) -> Seq<Step>;

/// How many nodes have begun and not ended.
pub uninterp spec fn tree_depth(f: FdtWriter) -> nat;

/// Whether the last node that began has neither ended nor had a node in it end.
pub uninterp spec fn tree_open(f: FdtWriter) -> bool;

/// The handles in use.
pub uninterp spec fn tree_handles(f: FdtWriter) -> Set<u32>;

/// How many nodes were open once a node had begun.
pub uninterp spec fn node_depth(n: FdtWriterNode) -> nat;

/// The blob that the steps of a finished tree make.
pub uninterp spec fn tree_blob(steps: Seq<Step>) -> Seq<u8>;

/// The text of an error of `vm-fdt`.
pub uninterp spec fn tree_error_text(e: Error) -> Seq<char>;

/// How many steps a tree may have here; every table in the blob stays far below 32 bits.
pub open spec fn roomy(f: FdtWriter, n: nat) -> bool {
    tree_steps(f).len() + n < 0x100_0000
}

/// A character of a node's name or unit address.
pub open spec fn node_char(c: char) -> bool {
    'a' <= c && c <= 'z' || 'A' <= c && c <= 'Z' || '0' <= c && c <= '9' || c == ',' || c == '.'
        || c == '_' || c == '+' || c == '-'
}

/// Whether every character may stand in a node's name or unit address.
pub open spec fn node_chars(s: Seq<char>) -> bool {
    forall|i: int| 0 <= i < s.len() ==> node_char(#[trigger] s[i])
}

/// Whether `s` is a node's name without a unit address.
#[verifier::opaque]
pub open spec fn base_name(s: Seq<char>) -> bool {
    0 < s.len() <= 31 && ('a' <= s[0] && s[0] <= 'z') && node_chars(s)
}

/// Whether `s` is a node's name: the root's, a plain one, or one with a unit address.
#[verifier::opaque]
pub open spec fn node_name(s: Seq<char>) -> bool {
    ||| s.len() == 0
    ||| base_name(s)
    ||| exists|base: Seq<char>, unit: Seq<char>|
        base_name(base) && node_chars(unit) && s == #[trigger] (base + "@"@ + unit)
}

/// A character of a property's name.
pub open spec fn property_char(c: char) -> bool {
    node_char(c) || c == '?' || c == '#'
}

/// Whether `s` is a property's name.
#[verifier::opaque]
pub open spec fn property_name(s: Seq<char>) -> bool {
    0 < s.len() <= 31 && forall|i: int| 0 <= i < s.len() ==> property_char(#[trigger] s[i])
}

/// Whether a text holds no NUL.
pub open spec fn no_nul(s: Seq<char>) -> bool {
    forall|i: int| 0 <= i < s.len() ==> #[trigger] s[i] != '\0'
}

/// Whether a value can be written: no text holds NUL, and its size fits in 32 bits.
pub open spec fn writable(v: Value) -> bool {
    match v {
        Value::Nothing => true,
        Value::Text(t) => no_nul(t) && t.len() < 0x1000_0000,
        Value::Texts(ts) => ts.len() < 100 && forall|i: int|
            0 <= i < ts.len() ==> no_nul(#[trigger] ts[i]) && ts[i].len() < 0x10_0000,
        Value::Word(_) => true,
        Value::Long(_) => true,
        Value::Words(w) => w.len() < 0x1000_0000,
        Value::Longs(w) => w.len() < 0x1000_0000,
    }
}

/// What writing the property `name` comes to: where it succeeds the tree has one more step, and
/// it succeeds in an open node where name and value can be written.
pub open spec fn wrote(
    before: FdtWriter,
    name: Seq<char>,
    v: Value,
    r: core::result::Result<(), Error>,
    after: FdtWriter,
) -> bool {
    &&& r is Ok ==> {
        &&& tree_steps(after) == tree_steps(before).push(Step::Property(name, v))
        &&& tree_depth(after) == tree_depth(before)
        &&& tree_open(after) == tree_open(before)
        &&& tree_handles(after) == tree_handles(before)
    }
    &&& tree_open(before) && property_name(name) && writable(v) && roomy(before, 0) ==> r is Ok
}

/// `vm_fdt::Error` as text.
#[verifier::external_body]
fn error_text(e: &Error) -> (s: String)
    ensures
        s@ == tree_error_text(*e),
{
    e.to_string()
}

/// `FdtWriter::new`: an empty tree. It has no reservations to refuse.
#[verifier::external_body]
fn new_tree() -> (r: core::result::Result<FdtWriter, Error>)
    ensures
        r is Ok,
        tree_steps(r->Ok_0) == Seq::<Step>::empty(),
        tree_depth(r->Ok_0) == 0,
        !tree_open(r->Ok_0),
        tree_handles(r->Ok_0) == Set::<u32>::empty(),
{
    FdtWriter::new()
}

/// `FdtWriter::begin_node`.
#[verifier::external_body]
fn begin(f: &mut FdtWriter, name: &str) -> (r: core::result::Result<FdtWriterNode, Error>)
    ensures
        r matches Ok(n) ==> {
            &&& tree_steps(*final(f)) == tree_steps(*old(f)).push(Step::Begin(name@))
            &&& tree_depth(*final(f)) == tree_depth(*old(f)) + 1
            &&& tree_open(*final(f))
            &&& tree_handles(*final(f)) == tree_handles(*old(f))
            &&& node_depth(n) == tree_depth(*final(f))
        },
        tree_depth(*old(f)) < 64 && node_name(name@) ==> r is Ok,
{
    f.begin_node(name)
}

/// `FdtWriter::end_node`.
#[verifier::external_body]
fn end(f: &mut FdtWriter, n: FdtWriterNode) -> (r: core::result::Result<(), Error>)
    ensures
        r is Ok ==> {
            &&& tree_steps(*final(f)) == tree_steps(*old(f)).push(Step::End)
            &&& tree_depth(*final(f)) + 1 == tree_depth(*old(f))
            &&& !tree_open(*final(f))
            &&& tree_handles(*final(f)) == tree_handles(*old(f))
        },
        node_depth(n) == tree_depth(*old(f)) ==> r is Ok,
{
    f.end_node(n)
}

/// `FdtWriter::property_null`.
#[verifier::external_body]
fn put_nothing(f: &mut FdtWriter, name: &str) -> (r: core::result::Result<(), Error>)
    ensures
        wrote(*old(f), name@, Value::Nothing, r, *final(f)),
{
    f.property_null(name)
}

/// `FdtWriter::property_string`; a NUL in the value is refused as such.
#[verifier::external_body]
fn put_text(f: &mut FdtWriter, name: &str, v: &str) -> (r: core::result::Result<(), Error>)
    ensures
        wrote(*old(f), name@, Value::Text(v@), r, *final(f)),
        !no_nul(v@) ==> r is Err && r->Err_0 == Error::InvalidString,
{
    f.property_string(name, v)
}

/// The texts of some strings.
pub open spec fn texts(v: Seq<String>) -> Seq<Seq<char>> {
    Seq::new(v.len(), |i: int| v[i]@)
}

/// `FdtWriter::property_string_list`.
#[verifier::external_body]
fn put_texts(f: &mut FdtWriter, name: &str, v: Vec<String>) -> (r: core::result::Result<
    (),
    Error,
>)
    ensures
        wrote(*old(f), name@, Value::Texts(texts(v@)), r, *final(f)),
{
    f.property_string_list(name, v)
}

/// `FdtWriter::property_u32`.
#[verifier::external_body]
fn put_word(f: &mut FdtWriter, name: &str, v: u32) -> (r: core::result::Result<(), Error>)
    ensures
        wrote(*old(f), name@, Value::Word(v), r, *final(f)),
{
    f.property_u32(name, v)
}

/// `FdtWriter::property_u64`.
#[verifier::external_body]
fn put_long(f: &mut FdtWriter, name: &str, v: u64) -> (r: core::result::Result<(), Error>)
    ensures
        wrote(*old(f), name@, Value::Long(v), r, *final(f)),
{
    f.property_u64(name, v)
}

/// `FdtWriter::property_array_u32`.
#[verifier::external_body]
fn put_words(f: &mut FdtWriter, name: &str, v: &Vec<u32>) -> (r: core::result::Result<(), Error>)
    ensures
        wrote(*old(f), name@, Value::Words(v@), r, *final(f)),
{
    f.property_array_u32(name, v)
}

/// `FdtWriter::property_array_u64`.
#[verifier::external_body]
fn put_longs(f: &mut FdtWriter, name: &str, v: &Vec<u64>) -> (r: core::result::Result<(), Error>)
    ensures
        wrote(*old(f), name@, Value::Longs(v@), r, *final(f)),
{
    f.property_array_u64(name, v)
}

/// `FdtWriter::property_phandle`: refused where the handle is in use.
#[verifier::external_body]
fn put_handle(f: &mut FdtWriter, v: u32) -> (r: core::result::Result<(), Error>)
    ensures
        r is Ok ==> {
            &&& tree_steps(*final(f)) == tree_steps(*old(f)).push(Step::Handle(v))
            &&& tree_depth(*final(f)) == tree_depth(*old(f))
            &&& tree_open(*final(f)) == tree_open(*old(f))
            &&& tree_handles(*final(f)) == tree_handles(*old(f)).insert(v)
        },
        tree_open(*old(f)) && roomy(*old(f), 0) && !tree_handles(*old(f)).contains(v) ==> r is Ok,
{
    f.property_phandle(v)
}

/// `FdtWriter::finish`: the blob, once every node has ended; refused where it would not fit in
/// 32 bits.
#[verifier::external_body]
fn finish(f: FdtWriter) -> (r: core::result::Result<Vec<u8>, Error>)
    ensures
        r matches Ok(b) ==> b@ == tree_blob(tree_steps(f)),
        tree_depth(f) == 0 && tree_blob(tree_steps(f)).len() <= u32::MAX ==> r is Ok,
        tree_depth(f) == 0 && tree_blob(tree_steps(f)).len() > u32::MAX ==> r is Err
            && r->Err_0 == Error::TotalSizeTooLarge,
{
    f.finish()
}

/// An error of `vm-fdt` as the monitor reports it.
pub open spec fn tree_error(e: Error) -> VmmErrorView {
    VmmErrorView::Device { device: "fdt"@, msg: tree_error_text(e) }
}

fn checked<T>(r: core::result::Result<T, Error>) -> (o: Result<T>)
    ensures
        match r {
            Ok(v) => o == Ok::<T, VmmError>(v),
            Err(e) => o matches Err(x) && x@ == tree_error(e),
        },
{
    match r {
        Ok(v) => Ok(v),
        Err(e) => {
            let text = error_text(&e);
            Err(VmmError::device("fdt", text.as_str()))
        },
    }
}

/// What a node's steps come to: where they succeed the tree has them and is otherwise as it
/// was, and they succeed inside a node of a tree with room for them.
pub open spec fn grew(
    before: FdtWriter,
    steps: Seq<Step>,
    handles: Set<u32>,
    r: Result<()>,
    after: FdtWriter,
) -> bool {
    &&& r is Ok ==> {
        &&& tree_steps(after) == tree_steps(before) + steps
        &&& tree_depth(after) == tree_depth(before)
        &&& tree_handles(after) == tree_handles(before).union(handles)
    }
    &&& 0 < tree_depth(before) < 60 && roomy(before, steps.len()) && tree_handles(before).disjoint(
        handles,
    ) ==> r is Ok
}

proof fn lemma_property_names()
    ensures
        property_name("compatible"@),
        property_name("#address-cells"@),
        property_name("#size-cells"@),
        property_name("interrupt-parent"@),
        property_name("device_type"@),
        property_name("enable-method"@),
        property_name("reg"@),
        property_name("bootargs"@),
        property_name("stdout-path"@),
        property_name("linux,initrd-start"@),
        property_name("linux,initrd-end"@),
        property_name("#interrupt-cells"@),
        property_name("interrupt-controller"@),
        property_name("always-on"@),
        property_name("interrupts"@),
        property_name("method"@),
        property_name("#clock-cells"@),
        property_name("clock-frequency"@),
        property_name("dma-coherent"@),
{
    reveal(property_name);
    reveal_strlit("compatible");
    reveal_strlit("#address-cells");
    reveal_strlit("#size-cells");
    reveal_strlit("interrupt-parent");
    reveal_strlit("device_type");
    reveal_strlit("enable-method");
    reveal_strlit("reg");
    reveal_strlit("bootargs");
    reveal_strlit("stdout-path");
    reveal_strlit("linux,initrd-start");
    reveal_strlit("linux,initrd-end");
    reveal_strlit("#interrupt-cells");
    reveal_strlit("interrupt-controller");
    reveal_strlit("always-on");
    reveal_strlit("interrupts");
    reveal_strlit("method");
    reveal_strlit("#clock-cells");
    reveal_strlit("clock-frequency");
    reveal_strlit("dma-coherent");
}

proof fn lemma_node_names()
    ensures
        base_name("cpu"@),
        base_name("memory"@),
        base_name("intc"@),
        base_name("uart"@),
        base_name("virtio_mmio"@),
        node_name("cpus"@),
        node_name("chosen"@),
        node_name("timer"@),
        node_name("psci"@),
        node_name("apb-pclk"@),
        node_name(""@),
{
    reveal(base_name);
    reveal(node_name);
    reveal_strlit("cpu");
    reveal_strlit("memory");
    reveal_strlit("intc");
    reveal_strlit("uart");
    reveal_strlit("virtio_mmio");
    reveal_strlit("cpus");
    reveal_strlit("chosen");
    reveal_strlit("timer");
    reveal_strlit("psci");
    reveal_strlit("apb-pclk");
    reveal_strlit("");
}

proof fn lemma_values()
    ensures
        no_nul("linux,dummy-virt"@) && "linux,dummy-virt"@.len() < 100,
        no_nul("cpu"@) && "cpu"@.len() < 100,
        no_nul("arm,arm-v8"@) && "arm,arm-v8"@.len() < 100,
        no_nul("psci"@) && "psci"@.len() < 100,
        no_nul("memory"@) && "memory"@.len() < 100,
        no_nul("arm,cortex-a15-gic"@) && "arm,cortex-a15-gic"@.len() < 100,
        no_nul("arm,gic-v3"@) && "arm,gic-v3"@.len() < 100,
        no_nul("arm,armv8-timer"@) && "arm,armv8-timer"@.len() < 100,
        no_nul("arm,psci-1.0"@) && "arm,psci-1.0"@.len() < 100,
        no_nul("arm,psci-0.2"@) && "arm,psci-0.2"@.len() < 100,
        no_nul("hvc"@) && "hvc"@.len() < 100,
        no_nul("fixed-clock"@) && "fixed-clock"@.len() < 100,
        no_nul("ns16550a"@) && "ns16550a"@.len() < 100,
        no_nul("virtio,mmio"@) && "virtio,mmio"@.len() < 100,
        no_nul("/uart@"@) && "/uart@"@.len() < 100,
{
    reveal_strlit("linux,dummy-virt");
    reveal_strlit("cpu");
    reveal_strlit("arm,arm-v8");
    reveal_strlit("psci");
    reveal_strlit("memory");
    reveal_strlit("arm,cortex-a15-gic");
    reveal_strlit("arm,gic-v3");
    reveal_strlit("arm,armv8-timer");
    reveal_strlit("arm,psci-1.0");
    reveal_strlit("arm,psci-0.2");
    reveal_strlit("hvc");
    reveal_strlit("fixed-clock");
    reveal_strlit("ns16550a");
    reveal_strlit("virtio,mmio");
    reveal_strlit("/uart@");
}

/// A number in hexadecimal may stand in a unit address, and is at most 16 digits long.
proof fn lemma_hex(n: nat)
    requires
        n <= u64::MAX,
    ensures
        node_chars(digits(n, 16)),
        no_nul(digits(n, 16)),
        digits(n, 16).len() <= 16,
{
    assert(pow16(16) == 0x1_0000_0000_0000_0000) by {
        reveal_with_fuel(pow16, 17);
    }
    lemma_hex_digits(n, 16);
}

proof fn lemma_hex_digits(n: nat, k: nat)
    requires
        0 < k <= 16,
        n < pow16(k),
    ensures
        node_chars(digits(n, 16)),
        no_nul(digits(n, 16)),
        digits(n, 16).len() <= k,
    decreases k,
{
    let last = digit_char(n % 16);
    assert(node_char(last) && last != '\0');
    if n < 16 {
        assert(digits(n, 16) =~= seq![digit_char(n)]);
    } else {
        assert(n / 16 < pow16((k - 1) as nat));
        lemma_hex_digits(n / 16, (k - 1) as nat);
    }
}

/// 16 to the power of `k`.
spec fn pow16(k: nat) -> nat
    decreases k,
{
    if k == 0 {
        1
    } else {
        16 * pow16((k - 1) as nat)
    }
}

/// A node's name with its unit address, in hexadecimal.
pub open spec fn unit_name(base: Seq<char>, unit: u64) -> Seq<char> {
    base + "@"@ + digits(unit as nat, 16)
}

fn unit_text(base: &str, unit: u64) -> (s: String)
    requires
        base_name(base@),
    ensures
        s@ == unit_name(base@, unit),
        node_name(s@),
{
    let mut s = cat2(base, "@");
    push_digits(&mut s, unit, 16);
    proof {
        lemma_hex(unit as nat);
        reveal(node_name);
    }
    s
}

/// A property with a text.
pub open spec fn text_step(name: Seq<char>, v: Seq<char>) -> Step {
    Step::Property(name, Value::Text(v))
}

/// A property with a 32-bit number.
pub open spec fn word_step(name: Seq<char>, v: u32) -> Step {
    Step::Property(name, Value::Word(v))
}

/// A property with 64-bit numbers.
pub open spec fn longs_step(name: Seq<char>, v: Seq<u64>) -> Step {
    Step::Property(name, Value::Longs(v))
}

/// A property with 32-bit numbers.
pub open spec fn words_step(name: Seq<char>, v: Seq<u32>) -> Step {
    Step::Property(name, Value::Words(v))
}

/// The MPIDR of vCPU `i`.
pub open spec fn mpidr_of(i: int) -> u32 {
    ((i / 16 % 0x100_0000) * 256 + i % 16) as u32
}

/// The node of vCPU `i`.
pub open spec fn cpu_steps(i: int) -> Seq<Step> {
    seq![
        Step::Begin(unit_name("cpu"@, mpidr_of(i) as u64)),
        text_step("device_type"@, "cpu"@),
        text_step("compatible"@, "arm,arm-v8"@),
        text_step("enable-method"@, "psci"@),
        word_step("reg"@, mpidr_of(i)),
        Step::End,
    ]
}

fn cpu_node(f: &mut FdtWriter, i: u32) -> (r: Result<()>)
    ensures
        grew(*old(f), cpu_steps(i as int), Set::empty(), r, *final(f)),
        0 < tree_depth(*old(f)) < 62 && roomy(*old(f), 6) ==> r is Ok,
{
    proof {
        lemma_property_names();
        lemma_node_names();
        lemma_values();
    }
    let mpidr = arm64_mpidr(i);
    let name = unit_text("cpu", mpidr as u64);
    let n = checked(begin(f, name.as_str()))?;
    checked(put_text(f, "device_type", "cpu"))?;
    checked(put_text(f, "compatible", "arm,arm-v8"))?;
    checked(put_text(f, "enable-method", "psci"))?;
    checked(put_word(f, "reg", mpidr))?;
    checked(end(f, n))?;
    assert(tree_steps(*f) =~= tree_steps(*old(f)) + cpu_steps(i as int));
    assert(tree_handles(*f) =~= tree_handles(*old(f)).union(Set::empty()));
    Ok(())
}

/// The nodes of the first `n` vCPUs.
pub open spec fn each_cpu(n: nat) -> Seq<Step>
    decreases n,
{
    if n == 0 {
        Seq::empty()
    } else {
        each_cpu((n - 1) as nat) + cpu_steps(n - 1)
    }
}

proof fn lemma_each_cpu_len(n: nat)
    ensures
        each_cpu(n).len() == 6 * n,
    decreases n,
{
    if n > 0 {
        lemma_each_cpu_len((n - 1) as nat);
    }
}

/// The container of the vCPUs.
pub open spec fn cpus_steps(n: nat) -> Seq<Step> {
    seq![
        Step::Begin("cpus"@),
        word_step("#address-cells"@, 1),
        word_step("#size-cells"@, 0),
    ] + each_cpu(n) + seq![Step::End]
}

fn cpus_node(f: &mut FdtWriter, cpus: u32) -> (r: Result<()>)
    ensures
        grew(*old(f), cpus_steps(cpus as nat), Set::empty(), r, *final(f)),
{
    proof {
        lemma_property_names();
        lemma_node_names();
        lemma_each_cpu_len(cpus as nat);
    }
    let n = checked(begin(f, "cpus"))?;
    checked(put_word(f, "#address-cells", 1))?;
    checked(put_word(f, "#size-cells", 0))?;
    let ghost start = tree_steps(*f);
    let ghost depth = tree_depth(*f);
    let ghost fits = 0 < tree_depth(*old(f)) < 60 && roomy(
        *old(f),
        cpus_steps(cpus as nat).len(),
    );
    assert(start + each_cpu(0) =~= start);
    assert(start =~= tree_steps(*old(f)) + seq![
        Step::Begin("cpus"@),
        word_step("#address-cells"@, 1),
        word_step("#size-cells"@, 0),
    ]);
    let mut i: u32 = 0;
    while i < cpus
        invariant
            i <= cpus,
            tree_steps(*f) == start + each_cpu(i as nat),
            tree_depth(*f) == depth,
            depth == tree_depth(*old(f)) + 1,
            tree_handles(*f) == tree_handles(*old(f)),
            fits ==> depth < 61 && start.len() + 6 * cpus + 1 < 0x100_0000,
            fits == (0 < tree_depth(*old(f)) < 60 && roomy(
                *old(f),
                cpus_steps(cpus as nat).len(),
            )),
        decreases cpus - i,
    {
        proof {
            lemma_each_cpu_len(i as nat);
            assert(tree_handles(*f).disjoint(Set::empty()));
        }
        let ghost before = *f;
        cpu_node(f, i)?;
        i += 1;
        assert(tree_steps(*f) =~= start + each_cpu(i as nat));
        assert(tree_handles(*f) =~= tree_handles(*old(f)));
    }
    checked(end(f, n))?;
    assert(tree_steps(*f) =~= tree_steps(*old(f)) + cpus_steps(cpus as nat));
    assert(tree_handles(*f) =~= tree_handles(*old(f)).union(Set::empty()));
    Ok(())
}

/// The node of one range of RAM.
pub open spec fn memory_steps(range: (u64, u64)) -> Seq<Step> {
    seq![
        Step::Begin(unit_name("memory"@, range.0)),
        text_step("device_type"@, "memory"@),
        longs_step("reg"@, seq![range.0, range.1]),
        Step::End,
    ]
}

fn memory_node(f: &mut FdtWriter, range: (u64, u64)) -> (r: Result<()>)
    ensures
        grew(*old(f), memory_steps(range), Set::empty(), r, *final(f)),
{
    proof {
        lemma_property_names();
        lemma_node_names();
        lemma_values();
    }
    let name = unit_text("memory", range.0);
    let reg = vec![range.0, range.1];
    assert(reg@ =~= seq![range.0, range.1]);
    let n = checked(begin(f, name.as_str()))?;
    checked(put_text(f, "device_type", "memory"))?;
    checked(put_longs(f, "reg", &reg))?;
    checked(end(f, n))?;
    assert(tree_steps(*f) =~= tree_steps(*old(f)) + memory_steps(range));
    assert(tree_handles(*f) =~= tree_handles(*old(f)).union(Set::empty()));
    Ok(())
}

/// The nodes of some ranges of RAM.
pub open spec fn each_range(ram: Seq<(u64, u64)>) -> Seq<Step>
    decreases ram.len(),
{
    if ram.len() == 0 {
        Seq::empty()
    } else {
        each_range(ram.drop_last()) + memory_steps(ram.last())
    }
}

proof fn lemma_each_range_len(ram: Seq<(u64, u64)>)
    ensures
        each_range(ram).len() == 4 * ram.len(),
    decreases ram.len(),
{
    if ram.len() > 0 {
        lemma_each_range_len(ram.drop_last());
    }
}

fn memory_nodes(f: &mut FdtWriter, ram: &Vec<(u64, u64)>) -> (r: Result<()>)
    ensures
        grew(*old(f), each_range(ram@), Set::empty(), r, *final(f)),
{
    let mut i: usize = 0;
    proof {
        lemma_each_range_len(ram@);
        assert(tree_steps(*f) + each_range(ram@.take(0)) =~= tree_steps(*f));
    }
    while i < ram.len()
        invariant
            i <= ram.len(),
            each_range(ram@).len() == 4 * ram@.len(),
            tree_steps(*f) == tree_steps(*old(f)) + each_range(ram@.take(i as int)),
            tree_depth(*f) == tree_depth(*old(f)),
            tree_handles(*f) == tree_handles(*old(f)),
        decreases ram.len() - i,
    {
        proof {
            lemma_each_range_len(ram@.take(i as int));
            assert(tree_handles(*f).disjoint(Set::empty()));
            assert(ram@.take(i + 1).drop_last() =~= ram@.take(i as int));
        }
        memory_node(f, ram[i])?;
        i += 1;
        assert(tree_steps(*f) =~= tree_steps(*old(f)) + each_range(ram@.take(i as int)));
        assert(tree_handles(*f) =~= tree_handles(*old(f)));
    }
    assert(ram@.take(i as int) =~= ram@);
    assert(tree_handles(*f) =~= tree_handles(*old(f)).union(Set::empty()));
    Ok(())
}

/// What the kernel is told of the initramfs.
pub open spec fn initrd_steps(initrd: Option<(u64, u64)>) -> Seq<Step> {
    match initrd {
        Some(range) => seq![
            Step::Property("linux,initrd-start"@, Value::Long(range.0)),
            Step::Property("linux,initrd-end"@, Value::Long((range.0 + range.1) as u64)),
        ],
        None => Seq::empty(),
    }
}

/// The path of the console.
pub open spec fn console_path() -> Seq<char> {
    "/uart@"@ + digits(arm::SERIAL_ADDR as nat, 16)
}

/// What the kernel is told at boot.
pub open spec fn chosen_steps(cmdline: Seq<char>, initrd: Option<(u64, u64)>) -> Seq<Step> {
    seq![
        Step::Begin("chosen"@),
        text_step("bootargs"@, cmdline),
        text_step("stdout-path"@, console_path()),
    ] + initrd_steps(initrd) + seq![Step::End]
}

/// Whether a command line can be written: no NUL, and a length far below 32 bits.
pub open spec fn cmdline_ok(cmdline: Seq<char>) -> bool {
    no_nul(cmdline) && cmdline.len() < 0x1000_0000
}

fn chosen_node(f: &mut FdtWriter, cmdline: &str, initrd: Option<(u64, u64)>) -> (r: Result<()>)
    requires
        initrd matches Some(range) ==> range.0 + range.1 <= u64::MAX,
    ensures
        r is Ok ==> {
            &&& tree_steps(*final(f)) == tree_steps(*old(f)) + chosen_steps(cmdline@, initrd)
            &&& tree_depth(*final(f)) == tree_depth(*old(f))
            &&& tree_handles(*final(f)) == tree_handles(*old(f))
            &&& no_nul(cmdline@)
        },
        0 < tree_depth(*old(f)) < 60 && roomy(*old(f), 10) ==> {
            &&& cmdline_ok(cmdline@) ==> r is Ok
            &&& !no_nul(cmdline@) ==> (r matches Err(e) && e@ == tree_error(Error::InvalidString))
        },
{
    proof {
        lemma_property_names();
        lemma_node_names();
        lemma_values();
        lemma_hex(arm::SERIAL_ADDR as nat);
    }
    let n = checked(begin(f, "chosen"))?;
    checked(put_text(f, "bootargs", cmdline))?;
    let mut path = "/uart@".to_owned();
    push_digits(&mut path, arm::SERIAL_ADDR, 16);
    checked(put_text(f, "stdout-path", path.as_str()))?;
    match initrd {
        Some(range) => {
            checked(put_long(f, "linux,initrd-start", range.0))?;
            checked(put_long(f, "linux,initrd-end", range.0 + range.1))?;
        },
        None => {},
    }
    checked(end(f, n))?;
    assert(tree_steps(*f) =~= tree_steps(*old(f)) + chosen_steps(cmdline@, initrd));
    Ok(())
}

/// The registers of the GIC.
pub open spec fn gic_reg(gic: GicVersion, cpus: u32) -> Seq<u64> {
    match gic {
        GicVersion::V2 => seq![
            arm::GIC_DIST,
            arm::GIC_DIST_SIZE,
            arm::GIC_CPU,
            arm::GIC_CPU_SIZE,
        ],
        GicVersion::V3 => seq![
            arm::GIC_DIST,
            arm::GIC_DIST_SIZE,
            arm::GIC_REDIST,
            (arm::GIC_REDIST_STRIDE * cpus) as u64,
        ],
    }
}

/// The name of the GIC.
pub open spec fn gic_name(gic: GicVersion) -> Seq<char> {
    match gic {
        GicVersion::V2 => "arm,cortex-a15-gic"@,
        GicVersion::V3 => "arm,gic-v3"@,
    }
}

/// The interrupt controller.
pub open spec fn gic_steps(gic: GicVersion, cpus: u32) -> Seq<Step> {
    seq![
        Step::Begin(unit_name("intc"@, arm::GIC_DIST)),
        text_step("compatible"@, gic_name(gic)),
        longs_step("reg"@, gic_reg(gic, cpus)),
        word_step("#interrupt-cells"@, 3),
        Step::Property("interrupt-controller"@, Value::Nothing),
        word_step("#address-cells"@, 2),
        word_step("#size-cells"@, 2),
        Step::Handle(PHANDLE_GIC),
        Step::End,
    ]
}

fn gic_node(f: &mut FdtWriter, gic: GicVersion, cpus: u32) -> (r: Result<()>)
    ensures
        grew(*old(f), gic_steps(gic, cpus), set![PHANDLE_GIC], r, *final(f)),
{
    proof {
        lemma_property_names();
        lemma_node_names();
        lemma_values();
    }
    let name = unit_text("intc", arm::GIC_DIST);
    let (model, reg) = match gic {
        GicVersion::V2 => (
            "arm,cortex-a15-gic",
            vec![arm::GIC_DIST, arm::GIC_DIST_SIZE, arm::GIC_CPU, arm::GIC_CPU_SIZE],
        ),
        GicVersion::V3 => (
            "arm,gic-v3",
            vec![
                arm::GIC_DIST,
                arm::GIC_DIST_SIZE,
                arm::GIC_REDIST,
                arm::GIC_REDIST_STRIDE * cpus as u64,
            ],
        ),
    };
    assert(reg@ =~= gic_reg(gic, cpus));
    let n = checked(begin(f, name.as_str()))?;
    checked(put_text(f, "compatible", model))?;
    checked(put_longs(f, "reg", &reg))?;
    checked(put_word(f, "#interrupt-cells", 3))?;
    checked(put_nothing(f, "interrupt-controller"))?;
    checked(put_word(f, "#address-cells", 2))?;
    checked(put_word(f, "#size-cells", 2))?;
    assert(tree_handles(*f) == tree_handles(*old(f)));
    assert(set![PHANDLE_GIC].contains(PHANDLE_GIC));
    checked(put_handle(f, PHANDLE_GIC))?;
    checked(end(f, n))?;
    assert(tree_steps(*f) =~= tree_steps(*old(f)) + gic_steps(gic, cpus));
    assert(tree_handles(*f) =~= tree_handles(*old(f)).union(set![PHANDLE_GIC]));
    Ok(())
}

/// The timer: the secure, non-secure, virtual and hypervisor timers' PPIs.
pub open spec fn timer_steps() -> Seq<Step> {
    seq![
        Step::Begin("timer"@),
        text_step("compatible"@, "arm,armv8-timer"@),
        Step::Property("always-on"@, Value::Nothing),
        words_step(
            "interrupts"@,
            seq![
                GIC_PPI,
                13,
                IRQ_LEVEL_HI,
                GIC_PPI,
                14,
                IRQ_LEVEL_HI,
                GIC_PPI,
                11,
                IRQ_LEVEL_HI,
                GIC_PPI,
                10,
                IRQ_LEVEL_HI,
            ],
        ),
        Step::End,
    ]
}

fn timer_node(f: &mut FdtWriter) -> (r: Result<()>)
    ensures
        grew(*old(f), timer_steps(), Set::empty(), r, *final(f)),
{
    proof {
        lemma_property_names();
        lemma_node_names();
        lemma_values();
    }
    let irqs = vec![
        GIC_PPI,
        13,
        IRQ_LEVEL_HI,
        GIC_PPI,
        14,
        IRQ_LEVEL_HI,
        GIC_PPI,
        11,
        IRQ_LEVEL_HI,
        GIC_PPI,
        10,
        IRQ_LEVEL_HI,
    ];
    let n = checked(begin(f, "timer"))?;
    checked(put_text(f, "compatible", "arm,armv8-timer"))?;
    checked(put_nothing(f, "always-on"))?;
    checked(put_words(f, "interrupts", &irqs))?;
    checked(end(f, n))?;
    assert(words_step("interrupts"@, irqs@) == timer_steps()[3]) by {
        assert(irqs@ =~= seq![
            GIC_PPI,
            13,
            IRQ_LEVEL_HI,
            GIC_PPI,
            14,
            IRQ_LEVEL_HI,
            GIC_PPI,
            11,
            IRQ_LEVEL_HI,
            GIC_PPI,
            10,
            IRQ_LEVEL_HI,
        ]);
    }
    assert(tree_steps(*f) =~= tree_steps(*old(f)) + timer_steps());
    assert(tree_handles(*f) =~= tree_handles(*old(f)).union(Set::empty()));
    Ok(())
}

/// The firmware interface the guest stops and starts CPUs through.
pub open spec fn psci_steps() -> Seq<Step> {
    seq![
        Step::Begin("psci"@),
        Step::Property("compatible"@, Value::Texts(seq!["arm,psci-1.0"@, "arm,psci-0.2"@])),
        text_step("method"@, "hvc"@),
        Step::End,
    ]
}

fn psci_node(f: &mut FdtWriter) -> (r: Result<()>)
    ensures
        grew(*old(f), psci_steps(), Set::empty(), r, *final(f)),
{
    proof {
        lemma_property_names();
        lemma_node_names();
        lemma_values();
    }
    let mut names: Vec<String> = Vec::new();
    names.push("arm,psci-1.0".to_owned());
    names.push("arm,psci-0.2".to_owned());
    assert(texts(names@) =~= seq!["arm,psci-1.0"@, "arm,psci-0.2"@]);
    let n = checked(begin(f, "psci"))?;
    checked(put_texts(f, "compatible", names))?;
    checked(put_text(f, "method", "hvc"))?;
    checked(end(f, n))?;
    assert(tree_steps(*f) =~= tree_steps(*old(f)) + psci_steps());
    assert(tree_handles(*f) =~= tree_handles(*old(f)).union(Set::empty()));
    Ok(())
}

/// The clock behind the console.
pub open spec fn clock_steps() -> Seq<Step> {
    seq![
        Step::Begin("apb-pclk"@),
        text_step("compatible"@, "fixed-clock"@),
        word_step("#clock-cells"@, 0),
        word_step("clock-frequency"@, 24_000_000),
        Step::Handle(PHANDLE_CLOCK),
        Step::End,
    ]
}

fn clock_node(f: &mut FdtWriter) -> (r: Result<()>)
    ensures
        grew(*old(f), clock_steps(), set![PHANDLE_CLOCK], r, *final(f)),
{
    proof {
        lemma_property_names();
        lemma_node_names();
        lemma_values();
    }
    let n = checked(begin(f, "apb-pclk"))?;
    checked(put_text(f, "compatible", "fixed-clock"))?;
    checked(put_word(f, "#clock-cells", 0))?;
    checked(put_word(f, "clock-frequency", 24_000_000))?;
    assert(tree_handles(*f) == tree_handles(*old(f)));
    assert(set![PHANDLE_CLOCK].contains(PHANDLE_CLOCK));
    checked(put_handle(f, PHANDLE_CLOCK))?;
    checked(end(f, n))?;
    assert(tree_steps(*f) =~= tree_steps(*old(f)) + clock_steps());
    assert(tree_handles(*f) =~= tree_handles(*old(f)).union(set![PHANDLE_CLOCK]));
    Ok(())
}

/// The console.
pub open spec fn uart_steps() -> Seq<Step> {
    seq![
        Step::Begin(unit_name("uart"@, arm::SERIAL_ADDR)),
        text_step("compatible"@, "ns16550a"@),
        longs_step("reg"@, seq![arm::SERIAL_ADDR, 0x1000]),
        word_step("clock-frequency"@, 1_843_200),
        words_step("interrupts"@, seq![GIC_SPI, arm::SERIAL_GSI, IRQ_EDGE_RISING]),
        Step::End,
    ]
}

fn uart_node(f: &mut FdtWriter) -> (r: Result<()>)
    ensures
        grew(*old(f), uart_steps(), Set::empty(), r, *final(f)),
{
    proof {
        lemma_property_names();
        lemma_node_names();
        lemma_values();
    }
    let name = unit_text("uart", arm::SERIAL_ADDR);
    let reg = vec![arm::SERIAL_ADDR, 0x1000];
    let irq = vec![GIC_SPI, arm::SERIAL_GSI, IRQ_EDGE_RISING];
    assert(reg@ =~= seq![arm::SERIAL_ADDR, 0x1000]);
    assert(irq@ =~= seq![GIC_SPI, arm::SERIAL_GSI, IRQ_EDGE_RISING]);
    let n = checked(begin(f, name.as_str()))?;
    checked(put_text(f, "compatible", "ns16550a"))?;
    checked(put_longs(f, "reg", &reg))?;
    checked(put_word(f, "clock-frequency", 1_843_200))?;
    checked(put_words(f, "interrupts", &irq))?;
    checked(end(f, n))?;
    assert(tree_steps(*f) =~= tree_steps(*old(f)) + uart_steps());
    assert(tree_handles(*f) =~= tree_handles(*old(f)).union(Set::empty()));
    Ok(())
}

/// One virtio-mmio device.
pub open spec fn virtio_steps(slot: Slot) -> Seq<Step> {
    seq![
        Step::Begin(unit_name("virtio_mmio"@, slot.addr)),
        text_step("compatible"@, "virtio,mmio"@),
        longs_step("reg"@, seq![slot.addr, MMIO_WINDOW]),
        words_step("interrupts"@, seq![GIC_SPI, slot.gsi, IRQ_EDGE_RISING]),
        Step::Property("dma-coherent"@, Value::Nothing),
        Step::End,
    ]
}

fn virtio_node(f: &mut FdtWriter, slot: Slot) -> (r: Result<()>)
    ensures
        grew(*old(f), virtio_steps(slot), Set::empty(), r, *final(f)),
{
    proof {
        lemma_property_names();
        lemma_node_names();
        lemma_values();
    }
    let name = unit_text("virtio_mmio", slot.addr);
    let reg = vec![slot.addr, MMIO_WINDOW];
    let irq = vec![GIC_SPI, slot.gsi, IRQ_EDGE_RISING];
    assert(reg@ =~= seq![slot.addr, MMIO_WINDOW]);
    assert(irq@ =~= seq![GIC_SPI, slot.gsi, IRQ_EDGE_RISING]);
    let n = checked(begin(f, name.as_str()))?;
    checked(put_text(f, "compatible", "virtio,mmio"))?;
    checked(put_longs(f, "reg", &reg))?;
    checked(put_words(f, "interrupts", &irq))?;
    checked(put_nothing(f, "dma-coherent"))?;
    checked(end(f, n))?;
    assert(tree_steps(*f) =~= tree_steps(*old(f)) + virtio_steps(slot));
    assert(tree_handles(*f) =~= tree_handles(*old(f)).union(Set::empty()));
    Ok(())
}

/// The virtio-mmio devices.
pub open spec fn each_slot(slots: Seq<Slot>) -> Seq<Step>
    decreases slots.len(),
{
    if slots.len() == 0 {
        Seq::empty()
    } else {
        each_slot(slots.drop_last()) + virtio_steps(slots.last())
    }
}

proof fn lemma_each_slot_len(slots: Seq<Slot>)
    ensures
        each_slot(slots).len() == 6 * slots.len(),
    decreases slots.len(),
{
    if slots.len() > 0 {
        lemma_each_slot_len(slots.drop_last());
    }
}

fn virtio_nodes(f: &mut FdtWriter, slots: &[Slot]) -> (r: Result<()>)
    ensures
        grew(*old(f), each_slot(slots@), Set::empty(), r, *final(f)),
{
    let mut i: usize = 0;
    proof {
        lemma_each_slot_len(slots@);
        assert(tree_steps(*f) + each_slot(slots@.take(0)) =~= tree_steps(*f));
    }
    while i < slots.len()
        invariant
            i <= slots@.len(),
            each_slot(slots@).len() == 6 * slots@.len(),
            tree_steps(*f) == tree_steps(*old(f)) + each_slot(slots@.take(i as int)),
            tree_depth(*f) == tree_depth(*old(f)),
            tree_handles(*f) == tree_handles(*old(f)),
        decreases slots@.len() - i,
    {
        proof {
            lemma_each_slot_len(slots@.take(i as int));
            assert(tree_handles(*f).disjoint(Set::empty()));
            assert(slots@.take(i + 1).drop_last() =~= slots@.take(i as int));
        }
        virtio_node(f, slots[i])?;
        i += 1;
        assert(tree_steps(*f) =~= tree_steps(*old(f)) + each_slot(slots@.take(i as int)));
        assert(tree_handles(*f) =~= tree_handles(*old(f)));
    }
    assert(slots@.take(i as int) =~= slots@);
    assert(tree_handles(*f) =~= tree_handles(*old(f)).union(Set::empty()));
    Ok(())
}

/// What the root says of the whole machine.
pub open spec fn root_steps() -> Seq<Step> {
    seq![
        Step::Begin(""@),
        text_step("compatible"@, "linux,dummy-virt"@),
        word_step("#address-cells"@, 2),
        word_step("#size-cells"@, 2),
        word_step("interrupt-parent"@, PHANDLE_GIC),
    ]
}

/// The steps of the whole tree.
pub open spec fn machine_steps(s: FdtSpec) -> Seq<Step> {
    root_steps() + cpus_steps(s.cpus as nat) + each_range(s.layout.ram@) + chosen_steps(
        s.cmdline@,
        s.initrd,
    ) + gic_steps(s.gic, s.cpus) + timer_steps() + psci_steps() + clock_steps() + uart_steps()
        + each_slot(s.virtio@) + seq![Step::End]
}

/// A machine of a size that the tree's tables hold with room to spare.
pub open spec fn modest(s: FdtSpec) -> bool {
    s.cpus <= 100_000 && s.layout.ram@.len() <= 100_000 && s.virtio@.len() <= 100_000
}

fn write_tree(f: &mut FdtWriter, s: &FdtSpec<'_>) -> (r: Result<()>)
    requires
        s.initrd matches Some(range) ==> range.0 + range.1 <= u64::MAX,
        tree_steps(*old(f)) == Seq::<Step>::empty(),
        tree_depth(*old(f)) == 0,
        tree_handles(*old(f)) == Set::<u32>::empty(),
    ensures
        r is Ok ==> tree_steps(*final(f)) == machine_steps(*s) && tree_depth(*final(f)) == 0
            && no_nul(s.cmdline@),
        modest(*s) && cmdline_ok(s.cmdline@) ==> r is Ok,
        modest(*s) && !no_nul(s.cmdline@) ==> (r matches Err(e) && e@ == tree_error(
            Error::InvalidString,
        )),
{
    proof {
        lemma_property_names();
        lemma_node_names();
        lemma_values();
        lemma_each_cpu_len(s.cpus as nat);
        lemma_each_range_len(s.layout.ram@);
        lemma_each_slot_len(s.virtio@);
    }
    let root = checked(begin(f, ""))?;
    checked(put_text(f, "compatible", "linux,dummy-virt"))?;
    checked(put_word(f, "#address-cells", 2))?;
    checked(put_word(f, "#size-cells", 2))?;
    checked(put_word(f, "interrupt-parent", PHANDLE_GIC))?;
    assert(tree_steps(*f) =~= root_steps());
    assert(tree_handles(*f) =~= Set::<u32>::empty());
    cpus_node(f, s.cpus)?;
    assert(tree_handles(*f) =~= Set::<u32>::empty());
    memory_nodes(f, &s.layout.ram)?;
    assert(tree_handles(*f) =~= Set::<u32>::empty());
    chosen_node(f, s.cmdline, s.initrd)?;
    gic_node(f, s.gic, s.cpus)?;
    assert(tree_handles(*f) =~= set![PHANDLE_GIC]);
    timer_node(f)?;
    assert(tree_handles(*f) =~= set![PHANDLE_GIC]);
    psci_node(f)?;
    assert(tree_handles(*f) =~= set![PHANDLE_GIC]);
    clock_node(f)?;
    uart_node(f)?;
    virtio_nodes(f, s.virtio)?;
    checked(end(f, root))?;
    assert(tree_steps(*f) =~= machine_steps(*s));
    Ok(())
}

/// Build the device tree blob.
///
/// The blob is written by `vm-fdt`; what it is, byte for byte, is not stated beyond the steps
/// that make it.
pub fn build(s: &FdtSpec<'_>) -> (r: Result<Vec<u8>>)
    requires
        s.initrd matches Some(range) ==> range.0 + range.1 <= u64::MAX,
    ensures
        r matches Ok(b) ==> b@ == tree_blob(machine_steps(*s)) && b@.len() <= arm::FDT_MAX
            && no_nul(s.cmdline@),
        modest(*s) && cmdline_ok(s.cmdline@) && tree_blob(machine_steps(*s)).len() <= arm::FDT_MAX
            ==> r is Ok,
        modest(*s) && cmdline_ok(s.cmdline@) && arm::FDT_MAX < tree_blob(machine_steps(*s)).len()
            <= u32::MAX ==> (r matches Err(e) && e@ == (VmmErrorView::Device {
            device: "fdt"@,
            msg: "device tree exceeds its reservation"@,
        })),
        modest(*s) && !no_nul(s.cmdline@) ==> (r matches Err(e) && e@ == tree_error(
            Error::InvalidString,
        )),
{
    let mut f = checked(new_tree())?;
    write_tree(&mut f, s)?;
    let blob = checked(finish(f))?;
    if blob.len() as u64 > arm::FDT_MAX {
        return Err(VmmError::device("fdt", "device tree exceeds its reservation"));
    }
    Ok(blob)
}

} // verus!
