//! What the monitor makes of a loaded guest kernel: where its first vCPU starts, where it ends,
//! and the Linux zero page (`boot_params`) that tells it of the command line, the initramfs and
//! the memory map.

pub mod laws;

use crate::boot::{e820, e820_map, memory_error_text, write_bytes, BZIMAGE_64BIT_ENTRY_OFFSET};
use crate::bytes::{le_at, le_bytes, lemma_le_bytes_len, push_le, u64_at};
use crate::devices::queue::{covered, mem_ranges, mem_written, Mem};
use crate::error::{Result, VmmError, VmmErrorView};
use crate::layout::{x86, Layout};
use crate::text::{begins, cat2};
use vstd::prelude::*;

verus! {

/// Where the kernel landed.
#[derive(Clone, Copy, Debug, PartialEq, Eq, Structural)]
pub struct Loaded {
    /// The address the first vCPU starts at.
    pub entry: u64,
    /// The first byte after everything the kernel occupies.
    pub kernel_end: u64,
    /// x86_64: the kernel was a bzImage, whose setup header goes into the zero page.
    pub bzimage: bool,
}

/// The refusal of a kernel file: `why` is what the loader said of it.
pub fn bad_kernel(path: &str, why: &str) -> (e: VmmError)
    ensures
        e@ == (VmmErrorView::Image { path: path@, msg: "not a loadable kernel: "@ + why@ }),
{
    VmmError::Image { path: path.to_owned(), msg: cat2("not a loadable kernel: ", why) }
}

/// The part of an aarch64 `Image`'s header that holds its size: bytes 16 to 24, with the BSS, which
/// the file does not have.
pub const ARM_HEADER_BYTES: usize = 24;

/// An aarch64 `Image` whose bytes were loaded at `entry` up to `file_end`. A file without a whole
/// header is no kernel, nor is one whose size reaches past the last address.
pub fn arm_loaded(path: &str, image: &Vec<u8>, entry: u64, file_end: u64) -> (r: Result<Loaded>)
    ensures
        r is Ok <==> image@.len() >= ARM_HEADER_BYTES && entry + le_at(image@, 16, 8) <= u64::MAX,
        r matches Ok(l) ==> {
            &&& l.entry == entry
            &&& l.kernel_end == (if file_end >= entry + le_at(image@, 16, 8) {
                file_end as int
            } else {
                entry + le_at(image@, 16, 8)
            })
            &&& !l.bzimage
        },
        r matches Err(e) ==> e@ == (VmmErrorView::Image {
            path: path@,
            msg: "not a loadable kernel: "@ + if image@.len() < ARM_HEADER_BYTES {
                "failed to fill whole buffer"@
            } else {
                "its size overflows"@
            },
        }),
{
    if image.len() < ARM_HEADER_BYTES {
        return Err(bad_kernel(path, "failed to fill whole buffer"));
    }
    let size = u64_at(image.as_slice(), 16);
    if size > u64::MAX - entry {
        return Err(bad_kernel(path, "its size overflows"));
    }
    let end = entry + size;
    Ok(
        Loaded {
            entry,
            kernel_end: if file_end >= end {
                file_end
            } else {
                end
            },
            bzimage: false,
        },
    )
}

/// Why a kernel image was not loaded.
#[verifier::external_type_specification]
#[verifier::external_body]
pub struct ExLoaderError(linux_loader::loader::Error);

/// What `linux_loader::loader::Error` prints. Nothing is claimed of the text.
#[verifier::external_body]
fn loader_error_text(e: &linux_loader::loader::Error) -> String {
    e.to_string()
}

/// The entry and the end of an ELF image that is loaded into memory of some ranges, above an
/// address; none where it cannot be.
pub uninterp spec fn elf_loaded(image: Seq<u8>, ranges: Seq<(u64, u64)>, above: u64) -> Option<
    (u64, u64),
>;

/// The load address and the end of a bzImage's code that is loaded into memory of some ranges,
/// above an address; none where it cannot be.
pub uninterp spec fn bzimage_loaded(image: Seq<u8>, ranges: Seq<(u64, u64)>, above: u64) -> Option<
    (u64, u64),
>;

/// `linux_loader::loader::Elf::load` without an offset: writes the image's segments to guest
/// memory, and gives the entry and the end of the highest segment. Nothing is claimed of what
/// the guest finds later: guest memory is shared with it.
#[verifier::external_body]
fn load_elf(mem: &Mem, image: &Vec<u8>, above: u64) -> (r: std::result::Result<
    (u64, u64),
    linux_loader::loader::Error,
>)
    ensures
        r is Ok == elf_loaded(image@, mem_ranges(*mem), above) is Some,
        r is Ok ==> elf_loaded(image@, mem_ranges(*mem), above) == Some(r->Ok_0),
{
    let above = Some(vm_memory::GuestAddress(above));
    let mut f = std::io::Cursor::new(image);
    let r = <linux_loader::loader::Elf as linux_loader::loader::KernelLoader>::load(
        mem,
        None,
        &mut f,
        above,
    )?;
    Ok((r.kernel_load.0, r.kernel_end))
}

/// `linux_loader::loader::BzImage::load` without an offset: writes the image's protected-mode
/// code to guest memory, at the 32-bit address that its header gives, and gives that address
/// and the code's end. Nothing is claimed of what the guest finds later: guest memory is shared
/// with it.
#[verifier::external_body]
fn load_bzimage(mem: &Mem, image: &Vec<u8>, above: u64) -> (r: std::result::Result<
    (u64, u64),
    linux_loader::loader::Error,
>)
    ensures
        r is Ok == bzimage_loaded(image@, mem_ranges(*mem), above) is Some,
        r is Ok ==> bzimage_loaded(image@, mem_ranges(*mem), above) == Some(r->Ok_0),
        r is Ok ==> r->Ok_0.0 <= u32::MAX,
{
    let above = Some(vm_memory::GuestAddress(above));
    let mut f = std::io::Cursor::new(image);
    let r = <linux_loader::loader::BzImage as linux_loader::loader::KernelLoader>::load(
        mem,
        None,
        &mut f,
        above,
    )?;
    Ok((r.kernel_load.0, r.kernel_end))
}

/// A kernel loaded at `load` up to `end`: an ELF kernel starts there; the 64-bit entry of a
/// bzImage lies behind that 32-bit one.
pub open spec fn x86_loaded(load: u64, end: u64, bzimage: bool) -> Loaded {
    Loaded {
        entry: if bzimage {
            (load + BZIMAGE_64BIT_ENTRY_OFFSET) as u64
        } else {
            load
        },
        kernel_end: end,
        bzimage,
    }
}

/// A kernel loaded at `load` up to `end`.
pub fn x86_kernel(load: u64, end: u64, bzimage: bool) -> (l: Loaded)
    requires
        bzimage ==> load + BZIMAGE_64BIT_ENTRY_OFFSET <= u64::MAX,
    ensures
        l == x86_loaded(load, end, bzimage),
{
    Loaded {
        entry: if bzimage {
            load + BZIMAGE_64BIT_ENTRY_OFFSET
        } else {
            load
        },
        kernel_end: end,
        bzimage,
    }
}

/// Load an x86_64 kernel into guest memory, above the memory that the boot data takes: as an ELF
/// image first, then as a bzImage.
pub fn load_kernel(mem: &Mem, path: &str, image: &Vec<u8>) -> (r: Result<Loaded>)
    ensures
        ({
            let elf = elf_loaded(image@, mem_ranges(*mem), x86::KERNEL_ADDR);
            let bzimage = bzimage_loaded(image@, mem_ranges(*mem), x86::KERNEL_ADDR);
            if elf is Some {
                r is Ok && r->Ok_0 == x86_loaded(elf->Some_0.0, elf->Some_0.1, false)
            } else if bzimage is Some {
                r is Ok && r->Ok_0 == x86_loaded(bzimage->Some_0.0, bzimage->Some_0.1, true)
            } else {
                r is Err && r->Err_0@ is Image && r->Err_0@->path == path@ && begins(
                    r->Err_0@->Image_msg,
                    "not a loadable kernel: "@,
                )
            }
        }),
{
    if let Ok((entry, end)) = load_elf(mem, image, x86::KERNEL_ADDR) {
        return Ok(x86_kernel(entry, end, false));
    }
    match load_bzimage(mem, image, x86::KERNEL_ADDR) {
        Ok((load, end)) => Ok(x86_kernel(load, end, true)),
        Err(e) => {
            let why = loader_error_text(&e);
            let e = bad_kernel(path, &why);
            assert(e@->Image_msg.subrange(0, "not a loadable kernel: "@.len() as int)
                =~= "not a loadable kernel: "@);
            Err(e)
        },
    }
}

/// The size of the zero page.
pub const ZERO_PAGE_BYTES: usize = 4096;

/// Where the setup header stands, in a bzImage and in the zero page.
pub const SETUP_HEADER: usize = 0x1f1;

/// The size of the setup header.
pub const SETUP_HEADER_BYTES: usize = 123;

/// Offset of the number of e820 entries.
pub const E820_ENTRIES: usize = 0x1e8;

/// Offset of the e820 table.
pub const E820_TABLE: usize = 0x2d0;

/// Offset of the boot sector's signature.
pub const BOOT_FLAG: usize = 0x1fe;

/// Offset of the setup header's signature, `HdrS`.
pub const HEADER: usize = 0x202;

/// Offset of the boot loader's number.
pub const TYPE_OF_LOADER: usize = 0x210;

/// Offset of the initramfs's address.
pub const RAMDISK_IMAGE: usize = 0x218;

/// Offset of the initramfs's size.
pub const RAMDISK_SIZE: usize = 0x21c;

/// Offset of the command line's address.
pub const CMD_LINE_PTR: usize = 0x228;

/// Offset of the kernel's alignment.
pub const KERNEL_ALIGNMENT: usize = 0x230;

/// Offset of the command line's size.
pub const CMDLINE_SIZE: usize = 0x238;

/// The setup header of a bzImage, which goes into the zero page; another kernel has none.
pub fn setup_header(path: &str, image: &Vec<u8>, loaded: &Loaded) -> (r: Result<Option<Vec<u8>>>)
    ensures
        !loaded.bzimage ==> r == Ok::<Option<Vec<u8>>, VmmError>(None),
        loaded.bzimage && image@.len() >= SETUP_HEADER + SETUP_HEADER_BYTES ==> {
            &&& r is Ok && r->Ok_0 is Some
            &&& r->Ok_0->Some_0@ == image@.subrange(
                SETUP_HEADER as int,
                SETUP_HEADER + SETUP_HEADER_BYTES,
            )
        },
        loaded.bzimage && image@.len() < SETUP_HEADER + SETUP_HEADER_BYTES ==> {
            &&& r is Err
            &&& r->Err_0@ == (VmmErrorView::Image {
                path: path@,
                msg: "not a loadable kernel: "@ + "failed to fill whole buffer"@,
            })
        },
{
    if !loaded.bzimage {
        return Ok(None);
    }
    if image.len() < SETUP_HEADER + SETUP_HEADER_BYTES {
        return Err(bad_kernel(path, "failed to fill whole buffer"));
    }
    let mut h: Vec<u8> = Vec::new();
    let mut i: usize = 0;
    while i < SETUP_HEADER_BYTES
        invariant
            i <= SETUP_HEADER_BYTES,
            image@.len() >= SETUP_HEADER + SETUP_HEADER_BYTES,
            h@ == image@.subrange(SETUP_HEADER as int, SETUP_HEADER + i),
        decreases SETUP_HEADER_BYTES - i,
    {
        h.push(image[SETUP_HEADER + i]);
        i += 1;
        assert(h@ =~= image@.subrange(SETUP_HEADER as int, SETUP_HEADER + i));
    }
    Ok(Some(h))
}

/// `page` with `b` at `at`.
pub open spec fn with_bytes(page: Seq<u8>, at: int, b: Seq<u8>) -> Seq<u8> {
    page.subrange(0, at) + b + page.subrange(at + b.len(), page.len() as int)
}

/// `page` with the `n` low bytes of `v` at `at`.
pub open spec fn with_le(page: Seq<u8>, at: int, v: nat, n: nat) -> Seq<u8> {
    with_bytes(page, at, le_bytes(v, n))
}

/// The bytes of the e820 entries: address, size and type of each.
pub open spec fn e820_bytes(map: Seq<(u64, u64, u32)>) -> Seq<u8>
    decreases map.len(),
{
    if map.len() == 0 {
        Seq::empty()
    } else {
        e820_bytes(map.drop_last()) + le_bytes(map.last().0 as nat, 8) + le_bytes(
            map.last().1 as nat,
            8,
        ) + le_bytes(map.last().2 as nat, 4)
    }
}

/// Each e820 entry is 20 bytes long.
pub proof fn lemma_e820_len(map: Seq<(u64, u64, u32)>)
    ensures
        e820_bytes(map).len() == 20 * map.len(),
    decreases map.len(),
{
    if map.len() > 0 {
        lemma_e820_len(map.drop_last());
        lemma_le_bytes_len(map.last().0 as nat, 8);
        lemma_le_bytes_len(map.last().1 as nat, 8);
        lemma_le_bytes_len(map.last().2 as nat, 4);
    }
}

/// The zero page: the kernel's own setup header if it has one, then what the monitor says.
pub open spec fn page_of(
    header: Option<Seq<u8>>,
    cmdline_len: nat,
    initrd: Option<(u64, u64)>,
    map: Seq<(u64, u64, u32)>,
) -> Seq<u8> {
    let zero = Seq::new(ZERO_PAGE_BYTES as nat, |i: int| 0u8);
    let p0 = match header {
        Some(h) => with_bytes(zero, SETUP_HEADER as int, h),
        None => zero,
    };
    let p1 = with_le(p0, TYPE_OF_LOADER as int, 0xff, 1);
    let p2 = with_le(p1, BOOT_FLAG as int, 0xaa55, 2);
    let p3 = with_le(p2, HEADER as int, 0x5372_6448, 4);
    let p4 = with_le(p3, KERNEL_ALIGNMENT as int, 0x100_0000, 4);
    let p5 = with_le(p4, CMD_LINE_PTR as int, x86::CMDLINE_ADDR as nat, 4);
    let p6 = with_le(p5, CMDLINE_SIZE as int, (cmdline_len + 1) as nat, 4);
    let p7 = match initrd {
        Some(range) => with_le(
            with_le(p6, RAMDISK_IMAGE as int, range.0 as nat, 4),
            RAMDISK_SIZE as int,
            range.1 as nat,
            4,
        ),
        None => p6,
    };
    let p8 = with_bytes(p7, E820_TABLE as int, e820_bytes(map));
    with_le(p8, E820_ENTRIES as int, map.len(), 1)
}

fn put(page: Vec<u8>, at: usize, b: &[u8]) -> (r: Vec<u8>)
    requires
        page@.len() == ZERO_PAGE_BYTES,
        at + b@.len() <= ZERO_PAGE_BYTES,
    ensures
        r@ == with_bytes(page@, at as int, b@),
        r@.len() == ZERO_PAGE_BYTES,
{
    let mut r = page;
    let mut i: usize = 0;
    while i < b.len()
        invariant
            i <= b@.len(),
            at + b@.len() <= ZERO_PAGE_BYTES,
            r@.len() == ZERO_PAGE_BYTES,
            page@.len() == ZERO_PAGE_BYTES,
            forall|k: int|
                0 <= k < ZERO_PAGE_BYTES ==> #[trigger] r@[k] == (if at <= k < at + i {
                    b@[k - at]
                } else {
                    page@[k]
                }),
        decreases b@.len() - i,
    {
        r.set(at + i, b[i]);
        i += 1;
    }
    assert(r@ =~= with_bytes(page@, at as int, b@));
    r
}

fn put_number(page: Vec<u8>, at: usize, v: u64, n: usize) -> (r: Vec<u8>)
    requires
        page@.len() == ZERO_PAGE_BYTES,
        at + n <= ZERO_PAGE_BYTES,
    ensures
        r@ == with_le(page@, at as int, v as nat, n as nat),
        r@.len() == ZERO_PAGE_BYTES,
{
    let mut b: Vec<u8> = Vec::new();
    push_le(&mut b, v, n);
    proof {
        lemma_le_bytes_len(v as nat, n as nat);
        assert(b@ =~= le_bytes(v as nat, n as nat));
    }
    put(page, at, b.as_slice())
}

/// The zero page: the kernel's own setup header if it has one, the command line, the initramfs
/// and the e820 map.
pub fn zero_page(
    header: Option<&Vec<u8>>,
    cmdline_len: usize,
    initrd: Option<(u64, u64)>,
    map: &Vec<(u64, u64, u32)>,
) -> (r: Vec<u8>)
    requires
        header matches Some(h) ==> h@.len() == SETUP_HEADER_BYTES,
        cmdline_len < u32::MAX,
        map@.len() <= 128,
    ensures
        r@ == page_of(
            match header {
                Some(h) => Some(h@),
                None => None,
            },
            cmdline_len as nat,
            initrd,
            map@,
        ),
        r@.len() == ZERO_PAGE_BYTES,
{
    let mut page: Vec<u8> = Vec::new();
    page.resize(ZERO_PAGE_BYTES, 0);
    assert(page@ =~= Seq::new(ZERO_PAGE_BYTES as nat, |i: int| 0u8));
    let page = match header {
        Some(h) => put(page, SETUP_HEADER, h.as_slice()),
        None => page,
    };
    let page = put_number(page, TYPE_OF_LOADER, 0xff, 1);
    let page = put_number(page, BOOT_FLAG, 0xaa55, 2);
    let page = put_number(page, HEADER, 0x5372_6448, 4);
    let page = put_number(page, KERNEL_ALIGNMENT, 0x100_0000, 4);
    let page = put_number(page, CMD_LINE_PTR, x86::CMDLINE_ADDR, 4);
    let page = put_number(page, CMDLINE_SIZE, cmdline_len as u64 + 1, 4);
    let page = match initrd {
        Some(range) => {
            let page = put_number(page, RAMDISK_IMAGE, range.0, 4);
            put_number(page, RAMDISK_SIZE, range.1, 4)
        },
        None => page,
    };
    let mut table: Vec<u8> = Vec::new();
    let mut i: usize = 0;
    while i < map.len()
        invariant
            i <= map@.len(),
            table@ == e820_bytes(map@.take(i as int)),
        decreases map@.len() - i,
    {
        push_le(&mut table, map[i].0, 8);
        push_le(&mut table, map[i].1, 8);
        push_le(&mut table, map[i].2 as u64, 4);
        assert(map@.take(i + 1).drop_last() =~= map@.take(i as int));
        i += 1;
    }
    proof {
        assert(map@.take(i as int) =~= map@);
        lemma_e820_len(map@);
    }
    let page = put(page, E820_TABLE, table.as_slice());
    put_number(page, E820_ENTRIES, map.len() as u64, 1)
}

/// Write the Linux zero page (`boot_params`): the setup header a bzImage brings, the command
/// line, the initramfs and the e820 map of `layout`.
pub fn write_zero_page(
    mem: &mut Mem,
    layout: &Layout,
    header: Option<&Vec<u8>>,
    cmdline_len: usize,
    initrd: Option<(u64, u64)>,
) -> (r: Result<()>)
    requires
        layout.in_bounds(),
        layout.ram@.len() <= 100,
        header matches Some(h) ==> h@.len() == SETUP_HEADER_BYTES,
        cmdline_len < u32::MAX,
    ensures
        mem_ranges(*final(mem)) == mem_ranges(*old(mem)),
        r is Ok <==> covered(mem_ranges(*old(mem)), x86::ZERO_PAGE_ADDR, ZERO_PAGE_BYTES as int),
        r is Ok ==> mem_written(*final(mem)) == mem_written(*old(mem)).push(
            (
                x86::ZERO_PAGE_ADDR,
                page_of(
                    match header {
                        Some(h) => Some(h@),
                        None => None,
                    },
                    cmdline_len as nat,
                    initrd,
                    e820_map(*layout),
                ),
            ),
        ),
        r matches Err(e) ==> e@ matches VmmErrorView::Device { device, msg } && device == "boot"@
            && begins(msg, "zero page: "@),
{
    let map = e820(layout);
    let page = zero_page(header, cmdline_len, initrd, &map);
    match write_bytes(mem, page.as_slice(), x86::ZERO_PAGE_ADDR) {
        Ok(()) => Ok(()),
        Err(e) => {
            let why = memory_error_text(&e);
            let msg = cat2("zero page: ", &why);
            assert(msg@.subrange(0, "zero page: "@.len() as int) =~= "zero page: "@);
            Err(VmmError::device("boot", &msg))
        },
    }
}

} // verus!
