//! The boot state the kernel expects when the first vCPU starts, computed without KVM: the
//! x86_64 long-mode GDT, identity page tables, e820 map and register values, and the aarch64
//! register ids and values. The Linux-only KVM code writes these into the vCPUs.

pub mod laws;

use crate::bytes::{le_bytes, lemma_le_bytes_len, push_le};
use crate::devices::queue::{covered, mem_ranges, mem_written, Mem};
use crate::error::{Result, VmmError, VmmErrorView};
use crate::layout::{x86, Layout};
use crate::text::{cat4, hex0x, hex0x_text};
use vstd::prelude::*;

verus! {

/// A GDT entry from its flags, base and limit (Intel SDM vol. 3, 3.4.5): the limit's low 16
/// bits, the base's low 24, the access byte, the limit's next 4 bits, the flags' top 4 and the
/// base's top 8.
pub open spec fn gdt(flags: u16, base: u32, limit: u32) -> int {
    limit as int % 0x1_0000 + (base as int % 0x100_0000) * 0x1_0000 + (flags as int % 0x100)
        * 0x100_0000_0000 + (limit as int / 0x1_0000 % 0x10) * 0x1_0000_0000_0000 + (flags as int
        / 0x1000) * 0x10_0000_0000_0000 + (base as int / 0x100_0000) * 0x100_0000_0000_0000
}

/// A GDT entry from its flags, base and limit (Intel SDM vol. 3, 3.4.5).
pub fn gdt_entry(flags: u16, base: u32, limit: u32) -> (e: u64)
    ensures
        e == gdt(flags, base, limit),
{
    limit as u64 % 0x1_0000 + (base as u64 % 0x100_0000) * 0x1_0000 + (flags as u64 % 0x100)
        * 0x100_0000_0000 + (limit as u64 / 0x1_0000 % 0x10) * 0x1_0000_0000_0000 + (flags as u64
        / 0x1000) * 0x10_0000_0000_0000 + (base as u64 / 0x100_0000) * 0x100_0000_0000_0000
}

/// The boot GDT: null, 64-bit code, data, TSS.
///
/// - Code: present, DPL 0, execute/read, long mode, 4 KiB granularity.
/// - Data: present, DPL 0, read/write, 32-bit default, 4 KiB granularity.
/// - TSS: present, busy 64-bit TSS.
pub const GDT: [u64; 4] = [
    0,
    0x00af_9b00_0000_ffff,
    0x00cf_9300_0000_ffff,
    0x008f_8b00_0000_ffff,
];

/// The boot GDT's entries are those of its flags, with base 0 and the whole address space.
pub proof fn law_boot_gdt()
    ensures
        GDT@[1] == gdt(0xa09b, 0, 0xfffff),
        GDT@[2] == gdt(0xc093, 0, 0xfffff),
        GDT@[3] == gdt(0x808b, 0, 0xfffff),
{
}

/// A segment register's contents, as KVM's `kvm_segment` wants them.
#[derive(Clone, Copy, Debug, PartialEq, Eq, Structural)]
pub struct Segment {
    /// Base address.
    pub base: u64,
    /// Limit, in bytes.
    pub limit: u32,
    /// Selector: the GDT index times 8.
    pub selector: u16,
    /// Segment type.
    pub type_: u8,
    /// Present.
    pub present: u8,
    /// Descriptor privilege level.
    pub dpl: u8,
    /// Default operation size.
    pub db: u8,
    /// Code or data (not system).
    pub s: u8,
    /// 64-bit code.
    pub l: u8,
    /// Granularity.
    pub g: u8,
    /// Available bit.
    pub avl: u8,
}

impl Default for Segment {
    fn default() -> (s: Self)
        ensures
            s == (Segment {
                base: 0,
                limit: 0,
                selector: 0,
                type_: 0,
                present: 0,
                dpl: 0,
                db: 0,
                s: 0,
                l: 0,
                g: 0,
                avl: 0,
            }),
    {
        Segment {
            base: 0,
            limit: 0,
            selector: 0,
            type_: 0,
            present: 0,
            dpl: 0,
            db: 0,
            s: 0,
            l: 0,
            g: 0,
            avl: 0,
        }
    }
}

/// The limit an entry's 20-bit limit stands for: counted in 4 KiB pages when granular.
pub open spec fn scaled_limit(raw: int, g: int) -> int {
    if g == 1 {
        raw * 4096 + 4095
    } else {
        raw
    }
}

/// The segment register image of the GDT entry `e` at `index`.
pub open spec fn segment_of(e: int, index: u16) -> Segment {
    let raw = e % 0x1_0000 + (e / 0x1_0000_0000_0000 % 0x10) * 0x1_0000;
    let g = e / 0x80_0000_0000_0000 % 2;
    Segment {
        base: (e / 0x1_0000 % 0x100_0000 + (e / 0x100_0000_0000_0000) * 0x100_0000) as u64,
        limit: scaled_limit(raw, g) as u32,
        selector: (index * 8) as u16,
        type_: (e / 0x100_0000_0000 % 0x10) as u8,
        present: (e / 0x8000_0000_0000 % 2) as u8,
        dpl: (e / 0x2000_0000_0000 % 4) as u8,
        db: (e / 0x40_0000_0000_0000 % 2) as u8,
        s: (e / 0x1000_0000_0000 % 2) as u8,
        l: (e / 0x20_0000_0000_0000 % 2) as u8,
        g: g as u8,
        avl: (e / 0x10_0000_0000_0000 % 2) as u8,
    }
}

/// The segment register image of GDT entry `index`.
pub fn segment(entry: u64, index: u16) -> (s: Segment)
    requires
        index < 8192,
    ensures
        s == segment_of(entry as int, index),
{
    let raw: u64 = entry % 0x1_0000 + (entry / 0x1_0000_0000_0000 % 0x10) * 0x1_0000;
    let g: u64 = entry / 0x80_0000_0000_0000 % 2;
    let limit: u64 = if g == 1 {
        raw * 4096 + 4095
    } else {
        raw
    };
    Segment {
        base: entry / 0x1_0000 % 0x100_0000 + (entry / 0x100_0000_0000_0000) * 0x100_0000,
        limit: limit as u32,
        selector: index * 8,
        type_: (entry / 0x100_0000_0000 % 0x10) as u8,
        present: (entry / 0x8000_0000_0000 % 2) as u8,
        dpl: (entry / 0x2000_0000_0000 % 4) as u8,
        db: (entry / 0x40_0000_0000_0000 % 2) as u8,
        s: (entry / 0x1000_0000_0000 % 2) as u8,
        l: (entry / 0x20_0000_0000_0000 % 2) as u8,
        g: g as u8,
        avl: (entry / 0x10_0000_0000_0000 % 2) as u8,
    }
}

/// Reading a GDT entry back gives what it was made of: the base, the 20-bit limit, and each
/// flag.
pub proof fn law_segment_undoes_gdt_entry(flags: u16, base: u32, limit: u32, index: u16)
    requires
        limit < 0x10_0000,
        index < 8192,
    ensures
        ({
            let s = segment_of(gdt(flags, base, limit), index);
            let f = flags as int;
            &&& s.base == base
            &&& s.limit == scaled_limit(limit as int, f / 0x8000)
            &&& s.selector == index * 8
            &&& s.type_ == f % 0x10
            &&& s.s == f / 0x10 % 2
            &&& s.dpl == f / 0x20 % 4
            &&& s.present == f / 0x80 % 2
            &&& s.avl == f / 0x1000 % 2
            &&& s.l == f / 0x2000 % 2
            &&& s.db == f / 0x4000 % 2
            &&& s.g == f / 0x8000
        }),
{
    let e = gdt(flags, base, limit) as u64;
    assert(e == gdt(flags, base, limit));
    lemma_gdt_fields(flags as u64, base as u64, limit as u64, e);
}

/// Each field of a GDT entry, by its position.
proof fn lemma_gdt_fields(f: u64, base: u64, limit: u64, e: u64)
    by (bit_vector)
    requires
        f < 0x1_0000,
        base < 0x1_0000_0000,
        limit < 0x10_0000,
        e == limit % 0x1_0000 + (base % 0x100_0000) * 0x1_0000 + (f % 0x100) * 0x100_0000_0000
            + (limit / 0x1_0000 % 0x10) * 0x1_0000_0000_0000 + (f / 0x1000)
            * 0x10_0000_0000_0000 + (base / 0x100_0000) * 0x100_0000_0000_0000,
    ensures
        e % 0x1_0000 + (e / 0x1_0000_0000_0000 % 0x10) * 0x1_0000 == limit,
        e / 0x1_0000 % 0x100_0000 + (e / 0x100_0000_0000_0000) * 0x100_0000 == base,
        e / 0x100_0000_0000 % 0x10 == f % 0x10,
        e / 0x1000_0000_0000 % 2 == f / 0x10 % 2,
        e / 0x2000_0000_0000 % 4 == f / 0x20 % 4,
        e / 0x8000_0000_0000 % 2 == f / 0x80 % 2,
        e / 0x10_0000_0000_0000 % 2 == f / 0x1000 % 2,
        e / 0x20_0000_0000_0000 % 2 == f / 0x2000 % 2,
        e / 0x40_0000_0000_0000 % 2 == f / 0x4000 % 2,
        e / 0x80_0000_0000_0000 % 2 == f / 0x8000,
{
}

/// `CR0.PE`.
pub const CR0_PE: u64 = 1;

/// `CR0.PG`.
pub const CR0_PG: u64 = 0x8000_0000;

/// `CR4.PAE`.
pub const CR4_PAE: u64 = 0x20;

/// `EFER.LME`.
pub const EFER_LME: u64 = 0x100;

/// `EFER.LMA`.
pub const EFER_LMA: u64 = 0x400;

/// The `i`th word written before the kernel starts, as `(address, value)`: the GDT, an empty
/// IDT, and page tables identity-mapping the first GiB with 2 MiB pages.
pub open spec fn boot_word(i: int) -> (u64, u64) {
    if i < 4 {
        ((x86::GDT_ADDR + 8 * i) as u64, GDT@[i])
    } else if i == 4 {
        (x86::IDT_ADDR, 0)
    } else if i == 5 {
        (x86::PML4_ADDR, (x86::PDPTE_ADDR + 3) as u64)
    } else if i == 6 {
        (x86::PDPTE_ADDR, (x86::PDE_ADDR + 3) as u64)
    } else {
        ((x86::PDE_ADDR + 8 * (i - 7)) as u64, ((i - 7) * 0x20_0000 + 0x83) as u64)
    }
}

/// The words written before the kernel starts, in order.
pub fn boot_words() -> (v: Vec<(u64, u64)>)
    ensures
        v@ == Seq::new(519, |i: int| boot_word(i)),
{
    let mut v: Vec<(u64, u64)> = Vec::new();
    let mut i: usize = 0;
    while i < 4
        invariant
            i <= 4,
            v@ == Seq::new(i as nat, |i: int| boot_word(i)),
        decreases 4 - i,
    {
        v.push((x86::GDT_ADDR + 8 * i as u64, GDT[i]));
        assert(v@ =~= Seq::new((i + 1) as nat, |i: int| boot_word(i)));
        i += 1;
    }
    v.push((x86::IDT_ADDR, 0));
    v.push((x86::PML4_ADDR, x86::PDPTE_ADDR + 3));
    v.push((x86::PDPTE_ADDR, x86::PDE_ADDR + 3));
    assert(v@ =~= Seq::new(7, |i: int| boot_word(i)));
    let mut p: u64 = 0;
    while p < 512
        invariant
            p <= 512,
            v@ == Seq::new((7 + p) as nat, |i: int| boot_word(i)),
        decreases 512 - p,
    {
        // Present, writable, 2 MiB page.
        v.push((x86::PDE_ADDR + p * 8, p * 0x20_0000 + 0x83));
        assert(v@ =~= Seq::new((8 + p) as nat, |i: int| boot_word(i)));
        p += 1;
    }
    v
}

/// The page tables map every 2 MiB page of the first GiB to itself, present and writable, and
/// no two boot words share an address.
pub proof fn law_boot_words(i: int, j: int)
    requires
        0 <= i < j < 519,
    ensures
        boot_word(i).0 + 8 <= boot_word(j).0 || boot_word(j).0 + 8 <= boot_word(i).0,
        i >= 7 ==> boot_word(i).1 - boot_word(i).1 as int % 0x20_0000 == (i - 7) * 0x20_0000
            && boot_word(i).1 as int % 4 == 3,
{
}

/// Why a write to guest memory was refused.
#[verifier::external_type_specification]
#[verifier::external_body]
pub struct ExGuestMemoryError(vm_memory::GuestMemoryError);

/// What `vm_memory::GuestMemoryError` prints. Nothing is claimed of the text.
#[verifier::external_body]
pub(crate) fn memory_error_text(e: &vm_memory::GuestMemoryError) -> String {
    e.to_string()
}

/// `vm_memory::Bytes::write_slice`: writes `data` to guest memory, if all of the range is
/// there. Nothing is claimed of what the guest finds later: guest memory is shared with it.
#[verifier::external_body]
pub(crate) fn write_bytes(mem: &mut Mem, data: &[u8], at: u64) -> (r: std::result::Result<
    (),
    vm_memory::GuestMemoryError,
>)
    ensures
        r is Ok <==> covered(mem_ranges(*old(mem)), at, data@.len() as int),
        r is Ok ==> mem_written(*final(mem)) == mem_written(*old(mem)).push((at, data@)),
        mem_ranges(*final(mem)) == mem_ranges(*old(mem)),
{
    vm_memory::Bytes::write_slice(&*mem, data, vm_memory::GuestAddress(at))
}

/// The first `n` boot words as pieces of memory.
pub open spec fn boot_pieces(n: nat) -> Seq<(u64, Seq<u8>)> {
    Seq::new(n, |i: int| (boot_word(i).0, le_bytes(boot_word(i).1 as nat, 8)))
}

/// Whether `e` says that the boot word at `at` could not be written.
pub open spec fn boot_write_failed(e: VmmErrorView, at: u64) -> bool {
    e matches VmmErrorView::Device { device, msg } && device == "boot"@ && exists|why: Seq<char>|
        msg == "write "@ + hex0x(at as nat) + ": "@ + why
}

/// Write the GDT, an empty IDT, and page tables identity-mapping the first GiB with 2 MiB
/// pages (what the 64-bit boot protocol needs before the kernel builds its own).
pub fn write_x86_boot_tables(mem: &mut Mem) -> (r: Result<()>)
    ensures
        mem_ranges(*final(mem)) == mem_ranges(*old(mem)),
        r is Ok <==> forall|i: int|
            0 <= i < 519 ==> covered(mem_ranges(*old(mem)), (#[trigger] boot_word(i)).0, 8),
        r is Ok ==> mem_written(*final(mem)) == mem_written(*old(mem)) + boot_pieces(519),
        r matches Err(e) ==> exists|i: int|
            0 <= i < 519 && !covered(mem_ranges(*old(mem)), (#[trigger] boot_word(i)).0, 8)
                && boot_write_failed(e@, boot_word(i).0),
{
    let words = boot_words();
    let mut i: usize = 0;
    assert(mem_written(*mem) =~= mem_written(*old(mem)) + boot_pieces(0));
    while i < words.len()
        invariant
            i <= 519,
            words@ == Seq::new(519, |i: int| boot_word(i)),
            mem_ranges(*mem) == mem_ranges(*old(mem)),
            mem_written(*mem) == mem_written(*old(mem)) + boot_pieces(i as nat),
            forall|j: int|
                0 <= j < i ==> covered(mem_ranges(*old(mem)), (#[trigger] boot_word(j)).0, 8),
        decreases 519 - i,
    {
        let (at, v) = words[i];
        assert((at, v) == boot_word(i as int));
        let mut word: Vec<u8> = Vec::new();
        push_le(&mut word, v, 8);
        proof {
            lemma_le_bytes_len(v as nat, 8);
            assert(word@ =~= le_bytes(v as nat, 8));
        }
        match write_bytes(mem, word.as_slice(), at) {
            Ok(()) => {},
            Err(e) => {
                let why = memory_error_text(&e);
                let shown = hex0x_text(at);
                let msg = cat4("write ", &shown, ": ", &why);
                assert(boot_word(i as int).0 == at);
                return Err(VmmError::device("boot", &msg));
            },
        }
        assert(mem_written(*mem) =~= mem_written(*old(mem)) + boot_pieces((i + 1) as nat));
        i += 1;
    }
    Ok(())
}

/// e820 type: usable RAM.
pub const E820_RAM: u32 = 1;

/// The RAM ranges above the first as e820 entries.
pub open spec fn high_ram(ram: Seq<(u64, u64)>) -> Seq<(u64, u64, u32)> {
    if ram.len() <= 1 {
        Seq::empty()
    } else {
        Seq::new((ram.len() - 1) as nat, |i: int| (ram[i + 1].0, ram[i + 1].1, E820_RAM))
    }
}

/// The e820 map of a layout.
pub open spec fn e820_map(l: Layout) -> Seq<(u64, u64, u32)> {
    seq![(0u64, x86::EBDA_START, E820_RAM)] + (if l.low_ram_end_spec() > x86::KERNEL_ADDR {
        seq![
            (x86::KERNEL_ADDR, (l.low_ram_end_spec() - x86::KERNEL_ADDR) as u64, E820_RAM),
        ]
    } else {
        seq![]
    }) + high_ram(l.ram@)
}

/// The e820 map: RAM below the EBDA, RAM from 1 MiB to the end of low RAM, high RAM. The
/// hot-plug region is not in it: virtio-mem describes it to the guest.
pub fn e820(layout: &Layout) -> (v: Vec<(u64, u64, u32)>)
    requires
        layout.in_bounds(),
    ensures
        v@ == e820_map(*layout),
{
    let mut v: Vec<(u64, u64, u32)> = Vec::new();
    v.push((0, x86::EBDA_START, E820_RAM));
    let low_end = layout.low_ram_end();
    if low_end > x86::KERNEL_ADDR {
        v.push((x86::KERNEL_ADDR, low_end - x86::KERNEL_ADDR, E820_RAM));
    }
    let ghost head = v@;
    let ghost tail = high_ram(layout.ram@);
    let mut i: usize = 1;
    assert(v@ =~= head + tail.subrange(0, 0));
    while i < layout.ram.len()
        invariant
            1 <= i,
            i <= layout.ram@.len() || (i == 1 && layout.ram@.len() == 0),
            tail == high_ram(layout.ram@),
            v@ == head + tail.subrange(0, i - 1),
        decreases layout.ram@.len() - i,
    {
        v.push((layout.ram[i].0, layout.ram[i].1, E820_RAM));
        assert(v@ =~= head + tail.subrange(0, i as int));
        i += 1;
    }
    assert(tail.subrange(0, i - 1) =~= tail);
    assert(v@ =~= e820_map(*layout));
    v
}

/// The first-vCPU register values of the 64-bit Linux boot protocol.
#[derive(Clone, Copy, Debug, PartialEq, Eq, Structural)]
pub struct X86BootRegs {
    /// Kernel entry.
    pub rip: u64,
    /// Stack.
    pub rsp: u64,
    /// The zero page, which the kernel expects in RSI.
    pub rsi: u64,
    /// Reserved bit 1 set, interrupts off.
    pub rflags: u64,
}

impl X86BootRegs {
    /// Registers entering the kernel at `entry`.
    pub fn new(entry: u64) -> (r: Self)
        ensures
            r == (X86BootRegs {
                rip: entry,
                rsp: x86::BOOT_STACK,
                rsi: x86::ZERO_PAGE_ADDR,
                rflags: 2,
            }),
    {
        X86BootRegs { rip: entry, rsp: x86::BOOT_STACK, rsi: x86::ZERO_PAGE_ADDR, rflags: 0x2 }
    }
}

/// The 64-bit entry point of a bzImage whose protected-mode kernel was loaded at `load`.
pub const BZIMAGE_64BIT_ENTRY_OFFSET: u64 = 0x200;

/// aarch64: `KVM_REG_ARM64 | KVM_REG_SIZE_U64 | KVM_REG_ARM_CORE`.
pub const ARM64_CORE_REG_BASE: u64 = 0x6030_0000_0010_0000;

/// The `KVM_{GET,SET}_ONE_REG` id of the aarch64 core register at byte `offset` in
/// `struct kvm_regs` (the offset counted in 32-bit words, as the kernel does).
pub fn arm64_core_reg(offset: u64) -> (r: u64)
    ensures
        r == ARM64_CORE_REG_BASE | (offset / 4),
        offset < 0x40_0000 ==> r == ARM64_CORE_REG_BASE + offset / 4,
{
    let w: u64 = offset / 4;
    assert(w < 0x10_0000 ==> 0x6030_0000_0010_0000u64 | w == 0x6030_0000_0010_0000 + w)
        by (bit_vector);
    ARM64_CORE_REG_BASE | w
}

/// `x0`: the device tree address at entry.
pub fn arm64_reg_x(n: u64) -> (r: u64)
    requires
        8 * n <= u64::MAX,
    ensures
        r == ARM64_CORE_REG_BASE | ((2 * n) as u64),
        n < 0x8_0000 ==> r == ARM64_CORE_REG_BASE + 2 * n,
{
    arm64_core_reg(8 * n)
}

/// `pc`.
pub fn arm64_reg_pc() -> (r: u64)
    ensures
        r == ARM64_CORE_REG_BASE + 64,
{
    arm64_core_reg(256)
}

/// `pstate`.
pub fn arm64_reg_pstate() -> (r: u64)
    ensures
        r == ARM64_CORE_REG_BASE + 66,
{
    arm64_core_reg(264)
}

/// EL1h with D, A, I, F masked: the state the arm64 boot protocol requires.
pub const ARM64_BOOT_PSTATE: u64 = 0x3c5;

/// The MSRs the first instruction of a 64-bit kernel expects zeroed, and fast string
/// operations enabled (`IA32_MISC_ENABLE` bit 0): `(index, value)`.
pub fn x86_boot_msrs() -> (v: Vec<(u32, u64)>)
    ensures
        v@ == seq![
            (0x174u32, 0u64),
            (0x175u32, 0u64),
            (0x176u32, 0u64),
            (0xc000_0081u32, 0u64),
            (0xc000_0082u32, 0u64),
            (0xc000_0083u32, 0u64),
            (0xc000_0084u32, 0u64),
            (0xc000_0102u32, 0u64),
            (0x10u32, 0u64),
            (0x1a0u32, 1u64),
        ],
{
    let v: Vec<(u32, u64)> = vec![
        (0x174u32, 0u64),  // IA32_SYSENTER_CS
        (0x175u32, 0u64),  // IA32_SYSENTER_ESP
        (0x176u32, 0u64),  // IA32_SYSENTER_EIP
        (0xc000_0081u32, 0u64),  // STAR
        (0xc000_0082u32, 0u64),  // LSTAR
        (0xc000_0083u32, 0u64),  // CSTAR
        (0xc000_0084u32, 0u64),  // SYSCALL_MASK
        (0xc000_0102u32, 0u64),  // KERNEL_GS_BASE
        (0x10u32, 0u64),  // TSC
        (0x1a0u32, 1u64),  // IA32_MISC_ENABLE: fast strings
    ];
    v
}

/// How many bits `n` takes.
pub open spec fn bit_width(n: nat) -> nat
    decreases n,
{
    if n == 0 {
        0
    } else {
        1 + bit_width(n / 2)
    }
}

fn bits(n: u32) -> (w: u32)
    ensures
        w == bit_width(n as nat),
    decreases n,
{
    if n == 0 {
        0
    } else {
        let rest = bits(n / 2);
        proof {
            vstd::arithmetic::power2::lemma2_to64();
            lemma_bit_width((n / 2) as nat, 31);
        }
        1 + rest
    }
}

proof fn lemma_bit_width(n: nat, w: nat)
    requires
        n < vstd::arithmetic::power2::pow2(w),
    ensures
        bit_width(n) <= w,
    decreases n,
{
    vstd::arithmetic::power2::lemma2_to64();
    if n > 0 {
        if w > 0 {
            vstd::arithmetic::power2::lemma_pow2_unfold(w);
            lemma_bit_width(n / 2, (w - 1) as nat);
        }
    }
}

/// The topology shift of `cpus` vCPUs: the least number of bits that tells them apart.
pub open spec fn topology_shift(cpus: u32) -> nat {
    bit_width(
        (if cpus == 0 {
            0
        } else {
            cpus - 1
        }) as nat,
    )
}

/// What a CPUID leaf becomes for vCPU `id` of `cpus_max`.
pub open spec fn patched(
    function: u32,
    index: u32,
    r: Seq<u32>,
    id: u32,
    cpus_max: u32,
) -> Seq<u32> {
    if function == 1 {
        let count = if cpus_max < 255 {
            cpus_max
        } else {
            255
        };
        seq![
            r[0],
            (r[1] as int % 0x1_0000 + count * 0x1_0000 + (id as int % 0x100) * 0x100_0000) as u32,
            if r[2] < 0x8000_0000 {
                (r[2] + 0x8000_0000) as u32
            } else {
                r[2]
            },
            if r[3] as int / 0x1000_0000 % 2 == 0 {
                (r[3] + 0x1000_0000) as u32
            } else {
                r[3]
            },
        ]
    } else if function == 0xb {
        if index == 0 {
            seq![0u32, 1u32, 0x100u32, id]
        } else if index == 1 {
            seq![topology_shift(cpus_max) as u32, cpus_max, 0x201u32, id]
        } else {
            seq![0u32, 0u32, index, id]
        }
    } else {
        r
    }
}

/// Adjust one CPUID leaf for vCPU `id` of `cpus_max`: the APIC id in leaf 1 and the x2APIC
/// topology in leaf 0xb, and the hypervisor bit. `regs` is `[eax, ebx, ecx, edx]`.
pub fn x86_patch_cpuid(function: u32, index: u32, regs: &mut [u32; 4], id: u32, cpus_max: u32)
    ensures
        final(regs)@ == patched(function, index, old(regs)@, id, cpus_max),
{
    let ghost before = regs@;
    if function == 1 {
        let count: u32 = if cpus_max < 255 {
            cpus_max
        } else {
            255
        };
        regs[1] = regs[1] % 0x1_0000 + count * 0x1_0000 + (id % 0x100) * 0x100_0000;
        if regs[2] < 0x8000_0000 {
            regs[2] = regs[2] + 0x8000_0000;
        }
        // HTT: the logical processor count in EBX is valid.
        if regs[3] / 0x1000_0000 % 2 == 0 {
            regs[3] = regs[3] + 0x1000_0000;
        }
    } else if function == 0xb {
        if index == 0 {
            regs[0] = 0;
            regs[1] = 1;
            regs[2] = 0x100;
        } else if index == 1 {
            let last: u32 = if cpus_max == 0 {
                0
            } else {
                cpus_max - 1
            };
            regs[0] = bits(last);
            regs[1] = cpus_max;
            regs[2] = 0x201;
        } else {
            regs[0] = 0;
            regs[1] = 0;
            regs[2] = index;
        }
        regs[3] = id;
    }
    assert(regs@ =~= patched(function, index, before, id, cpus_max));
}

/// The register image with LINT0 set to ExtINT and LINT1 to NMI: the delivery mode is bits 8
/// to 10 of each register.
pub open spec fn lint_set(r: Seq<u8>) -> Seq<u8> {
    r.update(0x351, (r[0x351] as int / 8 * 8 + 7) as u8).update(
        0x361,
        (r[0x361] as int / 8 * 8 + 4) as u8,
    )
}

/// Program the local APIC's LINT0 as ExtINT and LINT1 as NMI (the virtual-wire setup the
/// kernel expects from firmware), in a `kvm_lapic_state` register image.
pub fn x86_set_lint(regs: &mut [u8])
    requires
        old(regs)@.len() >= 0x364,
    ensures
        final(regs)@ == lint_set(old(regs)@),
{
    regs[0x351] = regs[0x351] / 8 * 8 + 7;
    regs[0x361] = regs[0x361] / 8 * 8 + 4;
}

/// The aarch64 MPIDR affinity KVM gives vCPU `id` (Aff0 is the low four bits, Aff1 the rest),
/// which is the `reg` of its device-tree node.
pub fn arm64_mpidr(id: u32) -> (m: u32)
    ensures
        m == (id as int / 16 % 0x100_0000) * 256 + id as int % 16,
{
    (id / 16 % 0x100_0000) * 256 + id % 16
}

} // verus!
