//! What a kernel reads from its zero page.

use super::{e820_bytes, lemma_e820_len, page_of, with_bytes, with_le, x86_loaded};
use crate::bytes::{le_at, le_bound, le_bytes, lemma_le_bytes_len, lemma_le_round_trip};
use vstd::prelude::*;

verus! {

/// What was put into a page is found there, and all else is as before.
proof fn lemma_put(page: Seq<u8>, at: int, b: Seq<u8>)
    requires
        0 <= at,
        at + b.len() <= page.len(),
    ensures
        with_bytes(page, at, b).len() == page.len(),
        forall|i: int|
            0 <= i < page.len() ==> #[trigger] with_bytes(page, at, b)[i] == (if at <= i < at
                + b.len() {
                b[i - at]
            } else {
                page[i]
            }),
{
}

/// A number whose bytes stand at `at` is read there.
proof fn lemma_found(page: Seq<u8>, at: int, v: nat, n: nat)
    requires
        0 <= at,
        at + n <= page.len(),
        v < le_bound(n),
        forall|i: int| at <= i < at + n ==> #[trigger] page[i] == le_bytes(v, n)[i - at],
    ensures
        le_at(page, at, n) == v,
{
    lemma_le_bytes_len(v, n);
    assert(page.subrange(at, at + n) =~= le_bytes(v, n));
    lemma_le_round_trip(page, at, v, n);
}

proof fn lemma_bounds()
    ensures
        le_bound(1) == 0x100,
        le_bound(2) == 0x1_0000,
        le_bound(4) == 0x1_0000_0000,
        le_bound(8) == 0x1_0000_0000_0000_0000,
{
    reveal_with_fuel(le_bound, 9);
}

/// The setup header's bytes that the monitor does not set itself.
pub open spec fn left_alone(i: int) -> bool {
    &&& 0x1f1 <= i < 0x1f1 + 123
    &&& !(0x1fe <= i < 0x200) && !(0x202 <= i < 0x206) && i != 0x210
    &&& !(0x218 <= i < 0x220) && !(0x228 <= i < 0x22c) && !(0x230 <= i < 0x234)
    &&& !(0x238 <= i < 0x23c)
}

/// The kernel finds the boot protocol's marks, its command line with its size, its initramfs, as
/// many entries of the memory map as there are, and its own setup header where the monitor says
/// nothing.
pub proof fn law_the_zero_page_tells(
    header: Option<Seq<u8>>,
    cmdline_len: nat,
    initrd: Option<(u64, u64)>,
    map: Seq<(u64, u64, u32)>,
)
    requires
        header matches Some(h) ==> h.len() == 123,
        cmdline_len < u32::MAX,
        map.len() <= 128,
        initrd matches Some(r) ==> r.0 <= u32::MAX && r.1 <= u32::MAX,
    ensures
        ({
            let page = page_of(header, cmdline_len, initrd, map);
            &&& page.len() == 4096
            &&& le_at(page, 0x1fe, 2) == 0xaa55
            &&& le_at(page, 0x202, 4) == 0x5372_6448
            &&& page[0x210] == 0xff
            &&& le_at(page, 0x230, 4) == 0x100_0000
            &&& le_at(page, 0x228, 4) == 0x2_0000
            &&& le_at(page, 0x238, 4) == cmdline_len + 1
            &&& page[0x1e8] == map.len()
            &&& initrd matches Some(r) ==> le_at(page, 0x218, 4) == r.0 && le_at(page, 0x21c, 4)
                == r.1
            &&& forall|i: int| #[trigger]
                left_alone(i) ==> page[i] == (match header {
                    Some(h) => h[i - 0x1f1],
                    None => 0u8,
                })
            &&& forall|i: int| 0 <= i < 20 * map.len() ==> #[trigger] page[0x2d0 + i] == e820_bytes(
                map,
            )[i]
        }),
{
    lemma_bounds();
    lemma_e820_len(map);
    lemma_le_bytes_len(0xff, 1);
    lemma_le_bytes_len(0xaa55, 2);
    lemma_le_bytes_len(0x5372_6448, 4);
    lemma_le_bytes_len(0x100_0000, 4);
    lemma_le_bytes_len(0x2_0000, 4);
    lemma_le_bytes_len((cmdline_len + 1) as nat, 4);
    lemma_le_bytes_len(map.len(), 1);
    let page = page_of(header, cmdline_len, initrd, map);
    let zero = Seq::new(4096, |i: int| 0u8);
    let p0 = match header {
        Some(h) => with_bytes(zero, 0x1f1, h),
        None => zero,
    };
    if let Some(h) = header {
        lemma_put(zero, 0x1f1, h);
    }
    let p1 = with_le(p0, 0x210, 0xff, 1);
    lemma_put(p0, 0x210, le_bytes(0xff, 1));
    let p2 = with_le(p1, 0x1fe, 0xaa55, 2);
    lemma_put(p1, 0x1fe, le_bytes(0xaa55, 2));
    let p3 = with_le(p2, 0x202, 0x5372_6448, 4);
    lemma_put(p2, 0x202, le_bytes(0x5372_6448, 4));
    let p4 = with_le(p3, 0x230, 0x100_0000, 4);
    lemma_put(p3, 0x230, le_bytes(0x100_0000, 4));
    let p5 = with_le(p4, 0x228, 0x2_0000, 4);
    lemma_put(p4, 0x228, le_bytes(0x2_0000, 4));
    let p6 = with_le(p5, 0x238, (cmdline_len + 1) as nat, 4);
    lemma_put(p5, 0x238, le_bytes((cmdline_len + 1) as nat, 4));
    let p7 = match initrd {
        Some(r) => with_le(with_le(p6, 0x218, r.0 as nat, 4), 0x21c, r.1 as nat, 4),
        None => p6,
    };
    if let Some(r) = initrd {
        lemma_le_bytes_len(r.0 as nat, 4);
        lemma_le_bytes_len(r.1 as nat, 4);
        lemma_put(p6, 0x218, le_bytes(r.0 as nat, 4));
        lemma_put(with_le(p6, 0x218, r.0 as nat, 4), 0x21c, le_bytes(r.1 as nat, 4));
    }
    let p8 = with_bytes(p7, 0x2d0, e820_bytes(map));
    lemma_put(p7, 0x2d0, e820_bytes(map));
    lemma_put(p8, 0x1e8, le_bytes(map.len(), 1));
    assert(page == with_le(p8, 0x1e8, map.len(), 1));
    lemma_found(page, 0x1fe, 0xaa55, 2);
    lemma_found(page, 0x202, 0x5372_6448, 4);
    lemma_found(page, 0x230, 0x100_0000, 4);
    lemma_found(page, 0x228, 0x2_0000, 4);
    lemma_found(page, 0x238, (cmdline_len + 1) as nat, 4);
    if let Some(r) = initrd {
        lemma_found(page, 0x218, r.0 as nat, 4);
        lemma_found(page, 0x21c, r.1 as nat, 4);
    }
    reveal_with_fuel(le_bytes, 2);
    assert(page[0x210] == le_bytes(0xff, 1)[0]);
    assert(page[0x1e8] == le_bytes(map.len(), 1)[0]);
}

/// Each entry of the memory map is twenty bytes: where the range begins, how long it is, and its
/// kind.
pub proof fn law_the_map_reads_back(map: Seq<(u64, u64, u32)>, i: int)
    requires
        0 <= i < map.len(),
    ensures
        e820_bytes(map).len() == 20 * map.len(),
        le_at(e820_bytes(map), 20 * i, 8) == map[i].0,
        le_at(e820_bytes(map), 20 * i + 8, 8) == map[i].1,
        le_at(e820_bytes(map), 20 * i + 16, 4) == map[i].2,
    decreases map.len(),
{
    lemma_e820_len(map);
    let rest = map.drop_last();
    lemma_e820_len(rest);
    let all = e820_bytes(map);
    lemma_le_bytes_len(map.last().0 as nat, 8);
    lemma_le_bytes_len(map.last().1 as nat, 8);
    lemma_le_bytes_len(map.last().2 as nat, 4);
    lemma_bounds();
    if i == map.len() - 1 {
        lemma_found(all, 20 * i, map[i].0 as nat, 8);
        lemma_found(all, 20 * i + 8, map[i].1 as nat, 8);
        lemma_found(all, 20 * i + 16, map[i].2 as nat, 4);
    } else {
        law_the_map_reads_back(rest, i);
        let b = e820_bytes(rest);
        assert(all.subrange(20 * i, 20 * i + 8) =~= b.subrange(20 * i, 20 * i + 8));
        assert(all.subrange(20 * i + 8, 20 * i + 16) =~= b.subrange(20 * i + 8, 20 * i + 16));
        assert(all.subrange(20 * i + 16, 20 * i + 20) =~= b.subrange(20 * i + 16, 20 * i + 20));
        crate::bytes::lemma_le_at_same(all, b, 20 * i, 8);
        crate::bytes::lemma_le_at_same(all, b, 20 * i + 8, 8);
        crate::bytes::lemma_le_at_same(all, b, 20 * i + 16, 4);
    }
}

/// A plain image starts at its own entry; a bzImage 0x200 bytes behind where its code was loaded.
/// Either way the kernel ends where its loader says.
pub proof fn law_where_a_kernel_starts(load: u64, end: u64, bzimage: bool)
    requires
        load + 0x200 <= u64::MAX,
    ensures
        x86_loaded(load, end, bzimage).entry - load == (if bzimage {
            0x200int
        } else {
            0
        }),
        x86_loaded(load, end, bzimage).kernel_end == end,
        x86_loaded(load, end, bzimage).bzimage == bzimage,
{
}

} // verus!
