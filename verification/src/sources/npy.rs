//! The NumPy `.npy` header.
//!
//! The header is a Python dict literal. Only the three keys the format defines are read:
//! `descr`, `fortran_order` and `shape`. A Fortran-ordered file cannot be planned: its tensor
//! would not be contiguous.

use crate::bytes::{le_at, u16_at, u32_at};
use crate::error::{MorunaError, MorunaErrorView};
use crate::paths::{stem, stem_of};
use crate::sources::plan::{
    as_view, npy_magic, proper, starts, starts_npy, DType, Entry, EntryView,
};
use crate::text::{
    cat2, cat3, cat4, cat5, chars_of, dec, dec_text, find_from, natural, occurs, parse_natural,
    same, strict_text, text_of, trim, trimmed, utf8_fault,
};
use vstd::prelude::*;
use vstd::string::*;
use vstd::utf8::*;

verus! {

/// Where `p` first occurs in `s` from the `i`th character on, if it does.
pub open spec fn occurrence(s: Seq<char>, p: Seq<char>, i: int) -> Option<int>
    decreases s.len() - i,
{
    if i < 0 || i + p.len() > s.len() {
        None
    } else if s.subrange(i, i + p.len()) == p {
        Some(i)
    } else if i >= s.len() {
        None
    } else {
        occurrence(s, p, i + 1)
    }
}

/// How deep in brackets the text goes on after `c`.
pub open spec fn deeper(depth: nat, c: char) -> nat {
    if c == '(' || c == '[' {
        depth + 1
    } else if (c == ')' || c == ']') && depth > 0 {
        (depth - 1) as nat
    } else {
        depth
    }
}

/// Where a value that begins outside brackets ends: at the first comma or closing brace that is
/// in no bracket, or at the end.
pub open spec fn value_end(s: Seq<char>, i: int, depth: nat) -> int
    decreases s.len() - i,
{
    if i < 0 || i >= s.len() {
        s.len() as int
    } else if depth == 0 && (s[i] == ',' || s[i] == '}') {
        i
    } else {
        value_end(s, i + 1, deeper(depth, s[i]))
    }
}

/// A key as a dict literal writes it, in quotes of one kind.
pub open spec fn needle(quote: char, key: Seq<char>) -> Seq<char> {
    seq![quote] + key + seq![quote, ':']
}

/// The text of the value behind `p`, if `p` occurs.
pub open spec fn value_behind(text: Seq<char>, p: Seq<char>) -> Option<Seq<char>> {
    match occurrence(text, p, 0) {
        Some(at) => {
            let from = at + p.len();
            Some(text.subrange(from, value_end(text, from, 0)))
        },
        None => None,
    }
}

/// The text of one key of a dict literal: that of the key in single quotes, or else in double
/// quotes.
pub open spec fn field_of(text: Seq<char>, key: Seq<char>) -> Option<Seq<char>> {
    match value_behind(text, needle('\'', key)) {
        Some(v) => Some(v),
        None => value_behind(text, needle('"', key)),
    }
}

proof fn lemma_value_end(s: Seq<char>, i: int, depth: nat)
    requires
        0 <= i <= s.len(),
    ensures
        i <= value_end(s, i, depth) <= s.len(),
    decreases s.len() - i,
{
    if i < s.len() {
        lemma_value_end(s, i + 1, deeper(depth, s[i]));
    }
}

fn find(v: &Vec<char>, p: &Vec<char>) -> (r: Option<usize>)
    requires
        p@.len() > 0,
    ensures
        match r {
            Some(i) => occurrence(v@, p@, 0) == Some(i as int) && i + p@.len() <= v@.len(),
            None => occurrence(v@, p@, 0) is None,
        },
{
    let mut i: usize = 0;
    while p.len() <= v.len() - i
        invariant
            i <= v@.len(),
            p@.len() > 0,
            occurrence(v@, p@, 0) == occurrence(v@, p@, i as int),
        decreases v@.len() - i,
    {
        if occurs(v, i, p) {
            return Some(i);
        }
        i += 1;
    }
    None
}

fn find_end(v: &Vec<char>, from: usize) -> (r: usize)
    requires
        from <= v@.len(),
    ensures
        r == value_end(v@, from as int, 0),
        from <= r <= v@.len(),
{
    proof {
        lemma_value_end(v@, from as int, 0);
    }
    let mut i: usize = from;
    let mut depth: usize = 0;
    while i < v.len()
        invariant
            from <= i <= v@.len(),
            depth <= i - from,
            value_end(v@, from as int, 0) == value_end(v@, i as int, depth as nat),
            from <= value_end(v@, from as int, 0) <= v@.len(),
        decreases v@.len() - i,
    {
        let c = v[i];
        if depth == 0 && (c == ',' || c == '}') {
            return i;
        }
        if c == '(' || c == '[' {
            depth += 1;
        } else if (c == ')' || c == ']') && depth > 0 {
            depth -= 1;
        }
        i += 1;
    }
    i
}

fn value_of(v: &Vec<char>, quote: char, key: &Vec<char>) -> (r: Option<String>)
    ensures
        match r {
            Some(t) => value_behind(v@, needle(quote, key@)) == Some(t@),
            None => value_behind(v@, needle(quote, key@)) is None,
        },
{
    let mut p: Vec<char> = Vec::new();
    p.push(quote);
    let mut i: usize = 0;
    while i < key.len()
        invariant
            i <= key@.len(),
            p@ == seq![quote] + key@.take(i as int),
        decreases key@.len() - i,
    {
        p.push(key[i]);
        assert(p@ =~= seq![quote] + key@.take(i + 1));
        i += 1;
    }
    p.push(quote);
    p.push(':');
    assert(p@ =~= needle(quote, key@));
    match find(v, &p) {
        Some(at) => {
            assert(v.len() == v@.len());
            let from = at + p.len();
            let to = find_end(v, from);
            Some(text_of(v, from, to))
        },
        None => None,
    }
}

/// The text of one key of a dict literal, up to the comma or brace that ends its value.
pub fn field(text: &str, key: &str) -> (r: Option<String>)
    ensures
        match r {
            Some(t) => field_of(text@, key@) == Some(t@),
            None => field_of(text@, key@) is None,
        },
{
    let v = chars_of(text);
    let k = chars_of(key);
    match value_of(&v, '\'', &k) {
        Some(t) => Some(t),
        None => value_of(&v, '"', &k),
    }
}

/// The dimensions that the parts of `s` from the `i`th character on spell: the parts are
/// between commas, spaces around a part do not count, and an empty part is none.
pub open spec fn dimensions(s: Seq<char>, i: int) -> Option<Seq<i64>>
    decreases s.len() - i,
{
    if i < 0 || i > s.len() {
        Some(Seq::empty())
    } else {
        let c = find_from(s, ',', i);
        let part = trimmed(s.subrange(i, c));
        let rest = if i <= c < s.len() {
            dimensions(s, c + 1)
        } else {
            Some(Seq::empty())
        };
        if part.len() == 0 {
            rest
        } else {
            match (natural(part, i64::MAX as nat), rest) {
                (Some(n), Some(more)) => Some(seq![n as i64] + more),
                _ => None,
            }
        }
    }
}

/// The shape that a Python tuple of whole numbers spells.
pub open spec fn shape_of(text: Seq<char>) -> Option<Seq<i64>> {
    let t = trimmed(text);
    if t.len() >= 2 && t[0] == '(' && t.last() == ')' {
        dimensions(t.subrange(1, t.len() - 1), 0)
    } else {
        None
    }
}

/// What dimensions found so far make of the rest.
spec fn onto(out: Seq<i64>, rest: Option<Seq<i64>>) -> Option<Seq<i64>> {
    match rest {
        Some(more) => Some(out + more),
        None => None,
    }
}

fn find_comma(v: &Vec<char>, from: usize) -> (r: usize)
    requires
        from <= v@.len(),
    ensures
        r == find_from(v@, ',', from as int),
        from <= r <= v@.len(),
{
    let mut i: usize = from;
    while i < v.len() && v[i] != ','
        invariant
            from <= i <= v@.len(),
            find_from(v@, ',', from as int) == find_from(v@, ',', i as int),
        decreases v@.len() - i,
    {
        i += 1;
    }
    i
}

/// A shape has no negative dimension.
proof fn lemma_dimensions_proper(s: Seq<char>, i: int)
    ensures
        dimensions(s, i) is Some ==> proper(dimensions(s, i)->Some_0),
    decreases s.len() - i,
{
    if 0 <= i <= s.len() {
        let c = find_from(s, ',', i);
        if i <= c < s.len() {
            lemma_dimensions_proper(s, c + 1);
        }
    }
}

/// A Python tuple of non-negative integers, `()` included.
pub fn parse_shape(text: &str) -> (r: Option<Vec<i64>>)
    ensures
        match r {
            Some(v) => shape_of(text@) == Some(v@) && proper(v@),
            None => shape_of(text@) is None,
        },
{
    let all = chars_of(text);
    let (a, b) = trim(&all, 0, all.len());
    assert(all@.subrange(0, all@.len() as int) =~= text@);
    let ghost t = trimmed(text@);
    assert(t == all@.subrange(a as int, b as int));
    if b - a < 2 || all[a] != '(' || all[b - 1] != ')' {
        return None;
    }
    let inner = text_of(&all, a + 1, b - 1);
    let v = chars_of(&inner);
    assert(v@ =~= t.subrange(1, t.len() - 1));
    let mut out: Vec<i64> = Vec::new();
    let mut i: usize = 0;
    assert(dimensions(v@, 0) == onto(out@, dimensions(v@, 0))) by {
        if dimensions(v@, 0) is Some {
            assert(out@ + dimensions(v@, 0)->Some_0 =~= dimensions(v@, 0)->Some_0);
        }
    }
    loop
        invariant
            i <= v@.len(),
            shape_of(text@) == dimensions(v@, 0),
            dimensions(v@, 0) == onto(out@, dimensions(v@, i as int)),
        decreases v@.len() - i,
    {
        let c = find_comma(&v, i);
        let (p, q) = trim(&v, i, c);
        let ghost before = out@;
        let ghost rest = if c < v@.len() {
            dimensions(v@, c + 1)
        } else {
            Some(Seq::empty())
        };
        if p < q {
            match parse_natural(&v, p, q, i64::MAX as u64) {
                Some(n) => {
                    out.push(n as i64);
                    assert(dimensions(v@, 0) == onto(out@, rest)) by {
                        if rest is Some {
                            assert(before + (seq![n as i64] + rest->Some_0) =~= out@
                                + rest->Some_0);
                        }
                    }
                },
                None => {
                    return None;
                },
            }
        }
        assert(dimensions(v@, 0) == onto(out@, rest));
        if c >= v.len() {
            assert(out@ + Seq::<i64>::empty() =~= out@);
            proof {
                lemma_dimensions_proper(v@, 0);
            }
            return Some(out);
        }
        i = c + 1;
    }
}

/// The element type that a code without a byte order names.
pub open spec fn plain_dtype(code: Seq<char>) -> Option<DType> {
    if code == "i1"@ || code == "b"@ {
        Some(DType::I8)
    } else if code == "i2"@ {
        Some(DType::I16)
    } else if code == "i4"@ {
        Some(DType::I32)
    } else if code == "i8"@ {
        Some(DType::I64)
    } else if code == "u1"@ {
        Some(DType::U8)
    } else if code == "u2"@ {
        Some(DType::U16)
    } else if code == "u4"@ {
        Some(DType::U32)
    } else if code == "u8"@ {
        Some(DType::U64)
    } else if code == "f2"@ {
        Some(DType::F16)
    } else if code == "f4"@ {
        Some(DType::F32)
    } else if code == "f8"@ {
        Some(DType::F64)
    } else if code == "b1"@ || code == "?"@ {
        Some(DType::Bool)
    } else {
        None
    }
}

/// The element type that a type string names: a code behind a byte order that is not big
/// endian, or a code alone.
pub open spec fn named_dtype(descr: Seq<char>) -> Option<DType> {
    if descr.len() == 0 || descr[0] as u32 >= 128 || descr[0] == '>' {
        None
    } else if descr[0] == '<' || descr[0] == '|' || descr[0] == '=' {
        plain_dtype(descr.skip(1))
    } else {
        plain_dtype(descr)
    }
}

fn plain_dtype_of(code: &str) -> (r: Option<DType>)
    ensures
        r == plain_dtype(code@),
{
    if same(code, "i1") || same(code, "b") {
        Some(DType::I8)
    } else if same(code, "i2") {
        Some(DType::I16)
    } else if same(code, "i4") {
        Some(DType::I32)
    } else if same(code, "i8") {
        Some(DType::I64)
    } else if same(code, "u1") {
        Some(DType::U8)
    } else if same(code, "u2") {
        Some(DType::U16)
    } else if same(code, "u4") {
        Some(DType::U32)
    } else if same(code, "u8") {
        Some(DType::U64)
    } else if same(code, "f2") {
        Some(DType::F16)
    } else if same(code, "f4") {
        Some(DType::F32)
    } else if same(code, "f8") {
        Some(DType::F64)
    } else if same(code, "b1") || same(code, "?") {
        Some(DType::Bool)
    } else {
        None
    }
}

/// The element type a NumPy type string names. Big-endian (`>`) types are rejected: bytes are
/// read as they lie and never swapped.
pub fn dtype_of(descr: &str) -> (r: Option<DType>)
    ensures
        r == named_dtype(descr@),
{
    let v = chars_of(descr);
    if v.len() == 0 || v[0] as u32 >= 128 || v[0] == '>' {
        return None;
    }
    if v[0] == '<' || v[0] == '|' || v[0] == '=' {
        let rest = text_of(&v, 1, v.len());
        assert(rest@ =~= descr@.skip(1));
        plain_dtype_of(&rest)
    } else {
        plain_dtype_of(descr)
    }
}

/// A text without the quotes before it.
pub open spec fn unquoted_start(s: Seq<char>) -> Seq<char>
    decreases s.len(),
{
    if s.len() > 0 && (s[0] == '\'' || s[0] == '"') {
        unquoted_start(s.drop_first())
    } else {
        s
    }
}

/// A text without the quotes after it.
pub open spec fn unquoted_end(s: Seq<char>) -> Seq<char>
    decreases s.len(),
{
    if s.len() > 0 && (s.last() == '\'' || s.last() == '"') {
        unquoted_end(s.drop_last())
    } else {
        s
    }
}

/// A text without the spaces around it, and then without the quotes around it.
pub open spec fn bare(s: Seq<char>) -> Seq<char> {
    unquoted_end(unquoted_start(trimmed(s)))
}

fn bare_of(text: &str) -> (r: String)
    ensures
        r@ == bare(text@),
{
    let v = chars_of(text);
    let (p, q) = trim(&v, 0, v.len());
    assert(v@.subrange(0, v@.len() as int) =~= text@);
    let mut a: usize = p;
    let mut b: usize = q;
    while a < b && (v[a] == '\'' || v[a] == '"')
        invariant
            p <= a <= b <= v@.len(),
            b == q,
            unquoted_start(v@.subrange(p as int, q as int)) == unquoted_start(
                v@.subrange(a as int, b as int),
            ),
        decreases b - a,
    {
        assert(v@.subrange(a as int, b as int).drop_first() =~= v@.subrange(a + 1, b as int));
        a += 1;
    }
    let ghost s = v@.subrange(a as int, b as int);
    while a < b && (v[b - 1] == '\'' || v[b - 1] == '"')
        invariant
            a <= b <= v@.len(),
            unquoted_end(s) == unquoted_end(v@.subrange(a as int, b as int)),
        decreases b - a,
    {
        assert(v@.subrange(a as int, b as int).drop_last() =~= v@.subrange(a as int, b - 1));
        b -= 1;
    }
    text_of(&v, a, b)
}

/// What is wrong with a `.npy` file.
pub open spec fn npy_error(path: Seq<char>, msg: Seq<char>) -> MorunaErrorView {
    MorunaErrorView::Io { op: "npy"@, target: path, msg }
}

/// Where the header of a `.npy` file begins, and its length, or what is wrong with the bytes
/// before it.
pub open spec fn header_at(b: Seq<u8>) -> Result<(nat, nat), Seq<char>> {
    if b.len() < 10 || !starts(b, npy_magic()) {
        Err("the file does not start with the NumPy magic"@)
    } else if b[6] == 1 {
        Ok((10, le_at(b, 8, 2)))
    } else if b[6] == 2 || b[6] == 3 {
        if b.len() < 12 {
            Err("the file is shorter than a version 2 header"@)
        } else {
            Ok((12, le_at(b, 8, 4)))
        }
    } else {
        Err("unknown .npy major version "@ + dec(b[6] as nat))
    }
}

/// Where the header of a `.npy` file of `len` bytes begins and ends, of which `prefix` is the
/// beginning.
pub fn header_span(path: &str, len: u64, prefix: &[u8]) -> (r: Result<(u64, u64), MorunaError>)
    ensures
        match header_at(prefix@) {
            Err(msg) => r is Err && r->Err_0@ == npy_error(path@, msg),
            Ok((start, size)) => if start + size > len {
                r is Err && r->Err_0@ == npy_error(
                    path@,
                    "header claims "@ + dec(size) + " bytes but the file is "@ + dec(len as nat)
                        + " bytes"@,
                )
            } else {
                r is Ok && r->Ok_0.0 == start && r->Ok_0.1 == start + size
            },
        },
{
    if prefix.len() < 10 || !starts_npy(prefix) {
        return Err(
            MorunaError::io("npy", path, "the file does not start with the NumPy magic"),
        );
    }
    let major = prefix[6];
    let (start, size) = if major == 1 {
        (10u64, u16_at(prefix, 8) as u64)
    } else if major == 2 || major == 3 {
        if prefix.len() < 12 {
            return Err(
                MorunaError::io("npy", path, "the file is shorter than a version 2 header"),
            );
        }
        (12u64, u32_at(prefix, 8) as u64)
    } else {
        let d = dec_text(major as u64);
        let m = cat2("unknown .npy major version ", &d);
        return Err(MorunaError::io("npy", path, &m));
    };
    let end = start + size;
    if end > len {
        let a = dec_text(size);
        let b = dec_text(len);
        let m = cat5("header claims ", &a, " bytes but the file is ", &b, " bytes");
        return Err(MorunaError::io("npy", path, &m));
    }
    Ok((start, end))
}

/// The tensor that the header of a `.npy` file describes, or what is wrong with the header; the
/// payload begins at `data_offset`.
pub open spec fn npy_entry(path: Seq<char>, len: u64, data_offset: u64, header: Seq<u8>) -> Result<
    EntryView,
    MorunaErrorView,
> {
    if !valid_utf8(header) {
        Err(npy_error(path, "the header is not UTF-8: "@ + utf8_fault(header)))
    } else {
        let text = decode_utf8(header);
        match field_of(text, "descr"@) {
            None => Err(npy_error(path, "the header has no descr"@)),
            Some(d) => match named_dtype(bare(d)) {
                None => Err(
                    MorunaErrorView::Plan(
                        path + ": dtype "@ + bare(d)
                            + " has no Moruna DType (contracts d.4), or is not little endian"@,
                    ),
                ),
                Some(dtype) => match field_of(text, "fortran_order"@) {
                    None => Err(npy_error(path, "the header has no fortran_order"@)),
                    Some(f) => if trimmed(f) != "False"@ {
                        Err(
                            MorunaErrorView::Plan(
                                path
                                    + ": the array is in Fortran order, which is not contiguous (contracts b)"@,
                            ),
                        )
                    } else {
                        match field_of(text, "shape"@) {
                            None => Err(npy_error(path, "the header has no shape"@)),
                            Some(t) => match shape_of(t) {
                                None => Err(
                                    npy_error(path, "the shape "@ + t + " does not parse"@),
                                ),
                                Some(shape) => Ok(
                                    EntryView {
                                        path,
                                        name: match stem_of(path) {
                                            Some(n) => n,
                                            None => "array"@,
                                        },
                                        dtype,
                                        shape,
                                        data_offset,
                                        file_len: len,
                                    },
                                ),
                            },
                        }
                    },
                },
            },
        }
    }
}

/// The tensor that the header of a `.npy` file of `len` bytes describes; the payload begins at
/// `data_offset`.
pub fn entry(path: &str, len: u64, data_offset: u64, header: &[u8]) -> (r: Result<
    Entry,
    MorunaError,
>)
    ensures
        as_view(r) == npy_entry(path@, len, data_offset, header@),
        r is Ok ==> proper(r->Ok_0.shape@),
{
    let text = match strict_text(header) {
        Ok(t) => t,
        Err(e) => {
            let m = cat2("the header is not UTF-8: ", &e);
            return Err(MorunaError::io("npy", path, &m));
        },
    };
    let descr = match field(&text, "descr") {
        Some(d) => bare_of(&d),
        None => {
            return Err(MorunaError::io("npy", path, "the header has no descr"));
        },
    };
    let dtype = match dtype_of(&descr) {
        Some(d) => d,
        None => {
            return Err(
                MorunaError::Plan(
                    cat4(
                        path,
                        ": dtype ",
                        &descr,
                        " has no Moruna DType (contracts d.4), or is not little endian",
                    ),
                ),
            );
        },
    };
    match field(&text, "fortran_order") {
        Some(f) => {
            let v = chars_of(&f);
            let (a, b) = trim(&v, 0, v.len());
            assert(v@.subrange(0, v@.len() as int) =~= f@);
            let order = text_of(&v, a, b);
            if !same(&order, "False") {
                return Err(
                    MorunaError::Plan(
                        cat2(
                            path,
                            ": the array is in Fortran order, which is not contiguous (contracts b)",
                        ),
                    ),
                );
            }
        },
        None => {
            return Err(MorunaError::io("npy", path, "the header has no fortran_order"));
        },
    }
    let shape = match field(&text, "shape") {
        Some(t) => match parse_shape(&t) {
            Some(s) => s,
            None => {
                let m = cat3("the shape ", &t, " does not parse");
                return Err(MorunaError::io("npy", path, &m));
            },
        },
        None => {
            return Err(MorunaError::io("npy", path, "the header has no shape"));
        },
    };
    let name = match stem(path) {
        Some(n) => n,
        None => "array".to_owned(),
    };
    Ok(Entry { path: path.to_owned(), name, dtype, shape, data_offset, file_len: len })
}

/// The one tensor of a `.npy` file of `len` bytes, where `prefix`, the beginning of the file,
/// holds all of the header; none where it does not, and the bytes between the ends of
/// [`header_span`] are still to be read.
pub fn plan(path: &str, len: u64, prefix: &[u8]) -> (r: Result<Option<Entry>, MorunaError>)
    ensures
        match header_at(prefix@) {
            Err(msg) => r is Err && r->Err_0@ == npy_error(path@, msg),
            Ok((start, size)) => if start + size > len {
                r is Err && r->Err_0@ == npy_error(
                    path@,
                    "header claims "@ + dec(size) + " bytes but the file is "@ + dec(len as nat)
                        + " bytes"@,
                )
            } else if prefix@.len() < start + size {
                r is Ok && r->Ok_0 is None
            } else {
                match npy_entry(
                    path@,
                    len,
                    (start + size) as u64,
                    prefix@.subrange(start as int, (start + size) as int),
                ) {
                    Ok(e) => r is Ok && r->Ok_0 is Some && r->Ok_0->Some_0@ == e && proper(e.shape),
                    Err(e) => r is Err && r->Err_0@ == e,
                }
            },
        },
{
    let (start, end) = header_span(path, len, prefix)?;
    if (prefix.len() as u64) < end {
        return Ok(None);
    }
    let header = vstd::slice::slice_subrange(prefix, start as usize, end as usize);
    match entry(path, len, end, header) {
        Ok(e) => Ok(Some(e)),
        Err(e) => Err(e),
    }
}

} // verus!
