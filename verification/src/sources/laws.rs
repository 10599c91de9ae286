//! What the plan of a tensor file means: element types by their codes, shapes by their texts, sizes
//! by their shapes.

use super::npy::{dimensions, header_at, named_dtype, npy_entry, occurrence, plain_dtype, shape_of};
use super::plan::{
    batched, coded, elements, mrb1_entry, mrb1_magic, npy_magic, proper, retained, signed, split_of,
    starts, DType, EntryView, Split,
};
use super::read::{aligned, apart, ascending, merged};
use super::stats::{counted, none_yet, Count, SourceStats};
use crate::bytes::{le_at, le_bytes};
use crate::text::laws::{law_decimal_reads_back, law_parsing_undoes_writing};
use crate::text::{dec, find_from, is_digit, is_space, natural, parsed, trimmed};
use vstd::prelude::*;

verus! {

/// Whether elements are signed numbers.
pub open spec fn is_signed(t: DType) -> bool {
    t is I8 || t is I16 || t is I32 || t is I64
}

/// Whether elements are unsigned numbers.
pub open spec fn is_unsigned(t: DType) -> bool {
    t is U8 || t is U16 || t is U32 || t is U64
}

/// Whether elements are floating-point numbers.
pub open spec fn is_float(t: DType) -> bool {
    t is F16 || t is F32 || t is F64
}

/// Whether a letter is that of an element type.
pub open spec fn letter_of(c: char, t: DType) -> bool {
    ||| c == 'i' && is_signed(t)
    ||| c == 'u' && is_unsigned(t)
    ||| c == 'f' && is_float(t)
    ||| c == 'b' && t is Bool
}

proof fn lemma_codes()
    ensures
        "i1"@ == seq!['i', '1'],
        "i2"@ == seq!['i', '2'],
        "i4"@ == seq!['i', '4'],
        "i8"@ == seq!['i', '8'],
        "u1"@ == seq!['u', '1'],
        "u2"@ == seq!['u', '2'],
        "u4"@ == seq!['u', '4'],
        "u8"@ == seq!['u', '8'],
        "f2"@ == seq!['f', '2'],
        "f4"@ == seq!['f', '4'],
        "f8"@ == seq!['f', '8'],
        "b1"@ == seq!['b', '1'],
        "b"@ == seq!['b'],
        "?"@ == seq!['?'],
{
    reveal_strlit("i1");
    reveal_strlit("i2");
    reveal_strlit("i4");
    reveal_strlit("i8");
    reveal_strlit("u1");
    reveal_strlit("u2");
    reveal_strlit("u4");
    reveal_strlit("u8");
    reveal_strlit("f2");
    reveal_strlit("f4");
    reveal_strlit("f8");
    reveal_strlit("b1");
    reveal_strlit("b");
    reveal_strlit("?");
    assert("i1"@ =~= seq!['i', '1']);
    assert("i2"@ =~= seq!['i', '2']);
    assert("i4"@ =~= seq!['i', '4']);
    assert("i8"@ =~= seq!['i', '8']);
    assert("u1"@ =~= seq!['u', '1']);
    assert("u2"@ =~= seq!['u', '2']);
    assert("u4"@ =~= seq!['u', '4']);
    assert("u8"@ =~= seq!['u', '8']);
    assert("f2"@ =~= seq!['f', '2']);
    assert("f4"@ =~= seq!['f', '4']);
    assert("f8"@ =~= seq!['f', '8']);
    assert("b1"@ =~= seq!['b', '1']);
    assert("b"@ =~= seq!['b']);
    assert("?"@ =~= seq!['?']);
}

/// A code of a letter and a digit names elements of the letter's kind that are as many bytes wide
/// as the digit says; every such type has its code, and no other code of two characters names one.
pub proof fn law_a_code_says_kind_and_width(code: Seq<char>)
    requires
        code.len() == 2,
    ensures
        plain_dtype(code) matches Some(t) ==> letter_of(code[0], t) && t.wide() == code[1] as int - 48,
        plain_dtype(code) is Some <==> {
            ||| (code[0] == 'i' || code[0] == 'u') && (code[1] == '1' || code[1] == '2' || code[1]
                == '4' || code[1] == '8')
            ||| code[0] == 'f' && (code[1] == '2' || code[1] == '4' || code[1] == '8')
            ||| code[0] == 'b' && code[1] == '1'
        },
{
    lemma_codes();
    assert(code =~= seq![code[0], code[1]]);
}

/// The codes of one character: a byte, and a truth value. Nothing longer than two is a code.
pub proof fn law_short_codes(code: Seq<char>)
    requires
        code.len() != 2,
    ensures
        plain_dtype(code) == (if code == seq!['b'] {
            Some(DType::I8)
        } else if code == seq!['?'] {
            Some(DType::Bool)
        } else {
            None
        }),
{
    lemma_codes();
}

/// Two codes of a letter and a digit that name the same type are the same.
pub proof fn law_codes_tell_types_apart(a: Seq<char>, b: Seq<char>)
    requires
        a.len() == 2,
        b.len() == 2,
        plain_dtype(a) is Some,
        plain_dtype(a) == plain_dtype(b),
    ensures
        a == b,
{
    law_a_code_says_kind_and_width(a);
    law_a_code_says_kind_and_width(b);
    assert(a =~= b);
}

/// The byte order before a code does not change the type it names; the order of big-endian machines
/// is refused whatever follows.
pub proof fn law_byte_orders(code: Seq<char>)
    ensures
        named_dtype(seq!['<'] + code) == plain_dtype(code),
        named_dtype(seq!['|'] + code) == plain_dtype(code),
        named_dtype(seq!['='] + code) == plain_dtype(code),
        named_dtype(seq!['>'] + code) is None,
        plain_dtype(code) is Some ==> named_dtype(code) == plain_dtype(code),
{
    lemma_codes();
    assert((seq!['<'] + code).skip(1) =~= code);
    assert((seq!['|'] + code).skip(1) =~= code);
    assert((seq!['='] + code).skip(1) =~= code);
}

/// A type's name says its kind and its width in bits.
pub proof fn law_names_say_the_width(t: DType)
    ensures
        !(t is Bool) ==> t.named().skip(1) == dec((8 * t.wide()) as nat),
        is_signed(t) ==> t.named()[0] == 'I',
        is_unsigned(t) ==> t.named()[0] == 'U',
        is_float(t) ==> t.named()[0] == 'F',
        t is Bool ==> t.wide() == 1,
{
    reveal_strlit("I8");
    reveal_strlit("I16");
    reveal_strlit("I32");
    reveal_strlit("I64");
    reveal_strlit("U8");
    reveal_strlit("U16");
    reveal_strlit("U32");
    reveal_strlit("U64");
    reveal_strlit("F16");
    reveal_strlit("F32");
    reveal_strlit("F64");
    reveal_with_fuel(crate::text::digits, 3);
    assert(dec(8) =~= seq!['8']);
    assert(dec(16) =~= seq!['1', '6']);
    assert(dec(32) =~= seq!['3', '2']);
    assert(dec(64) =~= seq!['6', '4']);
    assert(!(t is Bool) ==> t.named().skip(1) =~= dec((8 * t.wide()) as nat));
}

/// The inside of a tuple of numbers, each behind a blank but for the first where `lead` is false,
/// with `last` behind the last one.
pub open spec fn listed(shape: Seq<i64>, lead: bool, last: Seq<char>) -> Seq<char>
    decreases shape.len(),
{
    if shape.len() == 0 {
        Seq::empty()
    } else {
        (if lead {
            seq![' ']
        } else {
            Seq::empty()
        }) + dec(shape[0] as nat) + (if shape.len() == 1 {
            last
        } else {
            seq![','] + listed(shape.drop_first(), true, last)
        })
    }
}

/// The first comma from `i` on is at `c`, where there is none before.
proof fn lemma_comma(s: Seq<char>, i: int, c: int)
    requires
        0 <= i <= c <= s.len(),
        forall|k: int| i <= k < c ==> #[trigger] s[k] != ',',
        c < s.len() ==> s[c] == ',',
    ensures
        find_from(s, ',', i) == c,
    decreases c - i,
{
    if i < c {
        lemma_comma(s, i + 1, c);
    }
}

proof fn lemma_dimensions(s: Seq<char>, i: int, shape: Seq<i64>, lead: bool, last: Seq<char>)
    requires
        0 <= i <= s.len(),
        proper(shape),
        last == Seq::<char>::empty() || last == seq![','],
        s.subrange(i, s.len() as int) == listed(shape, lead, last),
    ensures
        dimensions(s, i) == Some(shape),
    decreases shape.len(),
{
    let tail = s.subrange(i, s.len() as int);
    if shape.len() == 0 {
        assert(i == s.len());
        lemma_comma(s, i, i);
        assert(s.subrange(i, i) =~= Seq::empty());
        assert(trimmed(s.subrange(i, i)) =~= Seq::empty());
        assert(dimensions(s, i) =~= Some(Seq::<i64>::empty()));
        assert(shape =~= Seq::empty());
    } else {
        let n = shape[0] as nat;
        law_decimal_reads_back(n);
        law_parsing_undoes_writing(n, i64::MAX as nat);
        let d = dec(n);
        let head = (if lead {
            seq![' ']
        } else {
            Seq::empty()
        }) + d;
        let c = i + head.len();
        let end = if shape.len() == 1 {
            last
        } else {
            seq![','] + listed(shape.drop_first(), true, last)
        };
        assert(tail =~= head + end);
        assert(s.len() == i + head.len() + end.len());
        assert forall|k: int| i <= k < c implies #[trigger] s[k] != ',' by {
            assert(tail[k - i] == s[k]);
            assert(tail[k - i] == head[k - i]);
            if lead {
                if k > i {
                    assert(head[k - i] == d[k - i - 1]);
                    assert(is_digit(d[k - i - 1]));
                }
            } else {
                assert(is_digit(d[k - i]));
            }
        }
        let part = s.subrange(i, c);
        assert(part =~= head) by {
            assert forall|k: int| 0 <= k < head.len() implies part[k] == head[k] by {
                assert(tail[k] == s[i + k]);
            }
        }
        assert(is_digit(d[0]) && is_digit(d[d.len() - 1]));
        assert(!is_space(d[0]) && !is_space(d.last()));
        assert(trimmed(d) == d);
        if lead {
            assert(part.subrange(1, part.len() as int) =~= d);
            assert(crate::text::trim_start(part) == crate::text::trim_start(d));
        } else {
            assert(part =~= d);
        }
        assert(trimmed(part) == d);
        assert(natural(d, i64::MAX as nat) == parsed(d, i64::MAX as nat));
        let rest = shape.drop_first();
        assert(proper(rest));
        if shape.len() == 1 {
            assert(shape =~= seq![shape[0]]);
            if last.len() == 0 {
                assert(c == s.len());
                lemma_comma(s, i, c);
            } else {
                assert(tail[c - i] == ',');
                assert(s[c] == ',');
                lemma_comma(s, i, c);
                assert(c + 1 == s.len());
                assert(rest =~= Seq::<i64>::empty());
                assert(s.subrange(c + 1, s.len() as int) =~= listed(rest, true, last));
                lemma_dimensions(s, c + 1, rest, true, last);
            }
            assert(dimensions(s, i) =~= Some(seq![shape[0]]));
        } else {
            assert(tail[c - i] == ',');
            assert(s[c] == ',');
            lemma_comma(s, i, c);
            let more = listed(rest, true, last);
            assert(s.subrange(c + 1, s.len() as int) =~= more) by {
                assert forall|k: int| 0 <= k < more.len() implies s.subrange(
                    c + 1,
                    s.len() as int,
                )[k] == more[k] by {
                    assert(tail[c + 1 - i + k] == s[c + 1 + k]);
                }
            }
            lemma_dimensions(s, c + 1, rest, true, last);
            assert(seq![shape[0]] + rest =~= shape);
        }
    }
}

/// A shape written as a tuple of its dimensions, with a comma behind the last one or without, is
/// read back, whatever its rank.
pub proof fn law_a_shape_reads_back(shape: Seq<i64>, comma: bool)
    requires
        proper(shape),
    ensures
        shape_of(
            seq!['('] + listed(
                shape,
                false,
                if comma {
                    seq![',']
                } else {
                    Seq::empty()
                },
            ) + seq![')'],
        ) == Some(shape),
{
    let last = if comma {
        seq![',']
    } else {
        Seq::<char>::empty()
    };
    let inside = listed(shape, false, last);
    let t = seq!['('] + inside + seq![')'];
    assert(t[0] == '(' && t.last() == ')');
    assert(trimmed(t) == t);
    assert(t.subrange(1, t.len() - 1) =~= inside);
    assert(inside.subrange(0, inside.len() as int) =~= inside);
    lemma_dimensions(inside, 0, shape, false, last);
}

/// What is searched for is found at its first place, and nowhere exactly where it does not occur.
pub proof fn law_the_first_place_is_found(s: Seq<char>, p: Seq<char>, i: int, k: int)
    requires
        0 <= i <= k,
        k + p.len() <= s.len(),
        s.subrange(k, k + p.len()) == p,
    ensures
        occurrence(s, p, i) matches Some(at) && i <= at <= k && s.subrange(at, at + p.len()) == p,
    decreases k - i,
{
    if s.subrange(i, i + p.len()) != p {
        law_the_first_place_is_found(s, p, i + 1, k);
    }
}

/// The header of a file begins behind the magic, the version and its own length, which has two bytes
/// in the first version and four in the next two; other versions are refused.
pub proof fn law_where_a_header_lies(b: Seq<u8>)
    ensures
        header_at(b) matches Ok((start, size)) ==> {
            &&& b.len() >= start && b[0] == 0x93 && b[1] == 'N' as u8 && b[2] == 'U' as u8 && b[3]
                == 'M' as u8 && b[4] == 'P' as u8 && b[5] == 'Y' as u8
            &&& b[6] == 1 ==> start == 10 && size == b[8] + 256 * b[9]
            &&& b[6] != 1 ==> start == 12 && size == b[8] + 256 * b[9] + 65536 * b[10] + 16777216
                * b[11] && (b[6] == 2 || b[6] == 3)
        },
        header_at(b) is Err <==> b.len() < 10 || b.take(6) != seq![0x93u8, 78, 85, 77, 80, 89] || b[6]
            == 0 || b[6] > 3 || (b[6] > 1 && b.len() < 12),
{
    reveal_with_fuel(le_at, 5);
    let m = seq![0x93u8, 78, 85, 77, 80, 89];
    if b.len() >= 10 && b.take(6) == m {
        assert(b[0] == b.take(6)[0] && b[1] == b.take(6)[1] && b[2] == b.take(6)[2] && b[3] == b.take(
            6,
        )[3] && b[4] == b.take(6)[4] && b[5] == b.take(6)[5]);
    }
}

/// An array is planned where its data lie, in the file that was looked at.
pub proof fn law_an_array_is_where_its_data_lie(
    path: Seq<char>,
    len: u64,
    data_offset: u64,
    header: Seq<u8>,
)
    ensures
        npy_entry(path, len, data_offset, header) matches Ok(e) ==> e.path == path && e.file_len
            == len && e.data_offset == data_offset,
{
}

/// The elements of a shape are those of its first dimension times those of the rest: so the rows
/// share the bytes evenly. A dimension of none leaves none.
pub proof fn law_rows_share_the_elements(shape: Seq<i64>)
    requires
        shape.len() > 0,
    ensures
        elements(shape) == shape[0] * elements(shape.drop_first()),
    decreases shape.len(),
{
    if shape.len() == 1 {
        assert(shape.drop_last() =~= Seq::empty());
        assert(shape.drop_first() =~= Seq::empty());
        assert(elements(shape.drop_last()) == 1);
        assert(elements(shape.drop_first()) == 1);
    } else {
        law_rows_share_the_elements(shape.drop_last());
        assert(shape.drop_last().drop_first() =~= shape.drop_first().drop_last());
        let mid = elements(shape.drop_first().drop_last());
        let a = shape[0] as int;
        let z = shape.last() as int;
        assert((a * mid) * z == a * (mid * z)) by (nonlinear_arith);
    }
}

/// A tensor's rows are the elements of its first dimension, a scalar is one row, and all its bytes
/// are its rows times the bytes of a row.
pub proof fn law_bytes_are_rows_of_bytes(e: EntryView)
    ensures
        e.shape.len() > 0 ==> e.rows() == e.shape[0] && e.bytes() == e.rows() * (elements(
            e.shape.drop_first(),
        ) * e.dtype.wide()),
        e.shape.len() == 0 ==> e.rows() == 1 && e.bytes() == e.dtype.wide(),
        e.end() - e.data_offset == e.bytes(),
{
    if e.shape.len() > 0 {
        law_rows_share_the_elements(e.shape);
        let m = elements(e.shape.drop_first());
        let r = e.shape[0] as int;
        let w = e.dtype.wide() as int;
        assert((r * m) * w == r * (m * w)) by (nonlinear_arith);
    }
}

/// Of the tensors, exactly those that are asked for by name are kept.
pub proof fn law_what_is_asked_for_is_kept(
    entries: Seq<EntryView>,
    wanted: Seq<Seq<char>>,
    e: EntryView,
)
    ensures
        retained(entries, wanted).contains(e) <==> entries.contains(e) && wanted.contains(e.name),
        retained(entries, wanted).len() <= entries.len(),
    decreases entries.len(),
{
    if entries.len() > 0 {
        let rest = entries.drop_last();
        law_what_is_asked_for_is_kept(rest, wanted, e);
        let r = retained(rest, wanted);
        let all = retained(entries, wanted);
        if entries.contains(e) {
            let i = choose|i: int| 0 <= i < entries.len() && entries[i] == e;
            if i < rest.len() {
                assert(rest[i] == e);
            }
        }
        if rest.contains(e) {
            let i = choose|i: int| 0 <= i < rest.len() && rest[i] == e;
            assert(entries[i] == e);
        }
        if r.contains(e) {
            let i = choose|i: int| 0 <= i < r.len() && r[i] == e;
            assert(all[i] == e);
        }
        if all.contains(e) {
            let i = choose|i: int| 0 <= i < all.len() && all[i] == e;
            if i < r.len() {
                assert(r[i] == e);
            }
        }
        if wanted.contains(entries.last().name) {
            assert(all[all.len() - 1] == entries.last());
        }
        assert(entries[entries.len() - 1] == entries.last());
    }
}

/// What a file of raw tensors is planned as is in the file: behind its magic and version, with as
/// many dimensions as it says, none negative, on a page behind the header, and all there.
pub proof fn law_a_raw_tensor_is_in_its_file(
    path: Seq<char>,
    len: u64,
    b: Seq<u8>,
    codes: Seq<(u8, DType)>,
)
    requires
        mrb1_entry(path, len, b, codes) is Ok,
    ensures
        ({
            let e = mrb1_entry(path, len, b, codes)->Ok_0;
            &&& b.len() >= 16 && b[0] == 'M' as u8 && b[1] == 'R' as u8 && b[2] == 'B' as u8 && b[3]
                == '1' as u8
            &&& b[4] == 1 && b[5] == 0
            &&& coded(codes, b[6]) == Some(e.dtype)
            &&& b[7] == e.shape.len() && e.shape.len() <= 8 && proper(e.shape)
            &&& e.data_offset as int % 4096 == 0 && e.data_offset >= 16 + 8 * e.shape.len()
            &&& e.data_offset + elements(e.shape) * e.dtype.wide() <= len
            &&& e.path == path && e.file_len == len
            &&& le_at(b, 8 + 8 * e.shape.len() as int, 8) == e.data_offset
            &&& forall|i: int|
                0 <= i < e.shape.len() ==> le_at(b, 8 + 8 * i, 8) == #[trigger] e.shape[i]
        }),
{
    let e = mrb1_entry(path, len, b, codes)->Ok_0;
    reveal_with_fuel(crate::bytes::le_bound, 9);
    crate::bytes::lemma_le_bytes_of_value(b, 8 + 8 * e.shape.len() as int, 8);
    assert forall|i: int| 0 <= i < e.shape.len() implies le_at(b, 8 + 8 * i, 8)
        == #[trigger] e.shape[i] by {
        crate::bytes::lemma_le_bytes_of_value(b, 8 + 8 * i, 8);
    }
    let image = super::plan::header_image(b[6], e.shape, e.data_offset);
    let head = b.take(e.data_offset as int);
    assert(head == image);
    reveal_with_fuel(le_bytes, 3);
    assert(head[0] == b[0] && head[1] == b[1] && head[2] == b[2] && head[3] == b[3] && head[4] == b[4]
        && head[5] == b[5]);
}

/// A code names the type of its first pair, and none exactly where there is no pair of it.
pub proof fn law_codes_are_looked_up(codes: Seq<(u8, DType)>, code: u8)
    ensures
        coded(codes, code) is Some <==> exists|i: int|
            0 <= i < codes.len() && (#[trigger] codes[i]).0 == code,
        coded(codes, code) matches Some(t) ==> codes.contains((code, t)),
    decreases codes.len(),
{
    if codes.len() > 0 {
        if codes[0].0 == code {
            assert(codes[0] == (code, codes[0].1));
            assert(codes.contains((code, codes[0].1)));
        } else {
            let rest = codes.drop_first();
            law_codes_are_looked_up(rest, code);
            if coded(codes, code) is Some {
                let t = coded(codes, code)->0;
                let i = choose|i: int| 0 <= i < rest.len() && rest[i] == (code, t);
                assert(codes[i + 1] == (code, t));
            }
            if exists|i: int| 0 <= i < codes.len() && (#[trigger] codes[i]).0 == code {
                let i = choose|i: int| 0 <= i < codes.len() && (#[trigger] codes[i]).0 == code;
                assert(rest[i - 1].0 == code);
            }
        }
    }
}

/// The shape of a batch leaves its first dimension open and keeps the others.
pub proof fn law_batches_leave_the_first_dimension_open(shape: Seq<i64>, i: int)
    requires
        0 <= i < shape.len(),
    ensures
        batched(shape).len() == shape.len(),
        batched(shape)[i] == (if i == 0 {
            -1i64
        } else {
            shape[i]
        }),
        batched(Seq::<i64>::empty()) == Seq::<i64>::empty(),
{
}

/// Eight bytes are a signed number in two's complement.
pub proof fn law_signed_numbers(v: nat)
    requires
        v < 0x1_0000_0000_0000_0000,
    ensures
        (signed(v) - v) % 0x1_0000_0000_0000_0000 == 0,
        signed(v) >= 0 <==> v < 0x8000_0000_0000_0000,
{
}

/// The counter of this kind.
pub open spec fn counter(s: SourceStats, what: Count) -> u64 {
    match what {
        Count::Splits => s.splits,
        Count::BytesPlanned => s.bytes_planned,
        Count::Reads => s.reads,
        Count::DecodeBytes => s.decode_bytes,
        Count::TensorDirectReads => s.tensor_direct_reads,
        Count::TensorBufferedReads => s.tensor_buffered_reads,
        Count::FooterReads => s.footer_reads,
        Count::GroupsSkipped => s.groups_skipped,
        Count::OversizedRows => s.oversized_rows,
    }
}

/// Counting adds to the counter of its kind and to no other. Counters start at nothing and wrap.
pub proof fn law_counting_is_of_one_kind(s: SourceStats, what: Count, other: Count, n: u64)
    ensures
        counter(counted(s, what, n), what) == if counter(s, what) + n <= u64::MAX {
            counter(s, what) + n
        } else {
            counter(s, what) + n - 0x1_0000_0000_0000_0000
        },
        other != what ==> counter(counted(s, what, n), other) == counter(s, other),
        counter(none_yet(), what) == 0,
{
    lemma_more(counter(s, what), n);
    assert(counter(counted(s, what, n), what) == super::stats::more(counter(s, what), n));
}

proof fn lemma_more(c: u64, n: u64)
    ensures
        super::stats::more(c, n) == if c + n <= u64::MAX {
            c + n
        } else {
            c + n - 0x1_0000_0000_0000_0000
        },
{
}

/// A file of raw elements begins with `MRB1`, an array file with 0x93 and `NUMPY`; no file begins
/// with both.
pub proof fn law_files_are_told_apart(b: Seq<u8>)
    ensures
        starts(b, mrb1_magic()) <==> b.len() >= 4 && b[0] == 0x4d && b[1] == 0x52 && b[2] == 0x42
            && b[3] == 0x31,
        starts(b, npy_magic()) <==> b.len() >= 6 && b[0] == 0x93 && b[1] == 0x4e && b[2] == 0x55
            && b[3] == 0x4d && b[4] == 0x50 && b[5] == 0x59,
        !(starts(b, mrb1_magic()) && starts(b, npy_magic())),
{
    let m = mrb1_magic();
    let n = npy_magic();
    if b.len() >= 4 {
        let t = b.take(4);
        assert(t[0] == b[0] && t[1] == b[1] && t[2] == b[2] && t[3] == b[3]);
        assert(t == m <==> t =~= m);
        if b[0] == 0x4d && b[1] == 0x52 && b[2] == 0x42 && b[3] == 0x31 {
            assert(t =~= m);
        }
    }
    if b.len() >= 6 {
        let t = b.take(6);
        assert(t[0] == b[0] && t[1] == b[1] && t[2] == b[2] && t[3] == b[3] && t[4] == b[4] && t[5]
            == b[5]);
        if b[0] == 0x93 && b[1] == 0x4e && b[2] == 0x55 && b[3] == 0x4d && b[4] == 0x50 && b[5]
            == 0x59 {
            assert(t =~= n);
        }
    }
}

/// Spans are read together if they are less than 1 MiB apart, and apart from each other if not; what
/// is read is from the start of a span to the end of one.
pub proof fn law_near_spans_are_read_together(spans: Seq<(u64, u64)>, a: (u64, u64), b: (u64, u64))
    requires
        ascending(spans),
        a.0 <= a.1,
        a.0 <= b.0 <= b.1,
    ensures
        apart(merged(spans), 0x10_0000),
        merged(seq![a]) == seq![a],
        b.0 < a.1 + 0x10_0000 ==> merged(seq![a, b]) == seq![
            (
                a.0,
                if a.1 >= b.1 {
                    a.1
                } else {
                    b.1
                },
            ),
        ],
        b.0 >= a.1 + 0x10_0000 ==> merged(seq![a, b]) == seq![a, b],
{
    super::read::lemma_merged(spans);
    reveal_with_fuel(merged, 4);
    assert(seq![a].drop_last() =~= Seq::empty());
    assert(merged(seq![a]) =~= seq![a]);
    assert(seq![a, b].drop_last() =~= seq![a]);
    if b.0 < a.1 + 0x10_0000 {
        assert(merged(seq![a, b]) =~= seq![
            (
                a.0,
                if a.1 >= b.1 {
                    a.1
                } else {
                    b.1
                },
            ),
        ]);
    } else {
        assert(merged(seq![a, b]) =~= seq![a, b]);
    }
}

/// What is read for a span is whole pages, or up to the end of the file, and less than a page more
/// than the span on either side.
pub proof fn law_less_than_a_page_is_read_in_vain(span: (u64, u64), page: u64, file_len: u64)
    requires
        page > 0,
        span.0 <= span.1 <= file_len,
        span.1 + page <= u64::MAX,
    ensures
        ({
            let r = aligned(span, page, file_len);
            &&& r.0 <= span.0 < r.0 + page
            &&& span.1 <= r.1 < span.1 + page
            &&& r.1 <= file_len
            &&& r.0 as int % page as int == 0
            &&& r.1 as int % page as int == 0 || r.1 == file_len
        }),
{
    super::read::lemma_floor(span.0, page);
    super::read::lemma_ceil(span.1, page);
    let p = page as int;
    vstd::arithmetic::div_mod::lemma_fundamental_div_mod(span.0 as int, p);
    vstd::arithmetic::div_mod::lemma_mod_bound(span.0 as int, p);
    vstd::arithmetic::mul::lemma_mul_is_commutative(p, span.0 as int / p);
    vstd::arithmetic::div_mod::lemma_mod_multiples_basic(span.0 as int / p, p);
    vstd::arithmetic::div_mod::lemma_mod_multiples_basic((span.1 + p - 1) / p, p);
}

/// A split is of one tensor: numbered by its place, with its rows and its bytes, all of them known,
/// and it can be read in parts if the tensor has a first dimension.
pub proof fn law_a_split_is_its_tensor(e: EntryView, i: int, s: Split)
    requires
        split_of(e, i, s),
    ensures
        s.id == i,
        s.uncompressed_bytes == elements(e.shape) * e.dtype.wide(),
        e.shape.len() > 0 ==> s.rows == e.shape[0] && s.sub_splittable,
        e.shape.len() == 0 ==> s.rows == 1 && !s.sub_splittable,
        !s.estimated,
{
}

} // verus!
