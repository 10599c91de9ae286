//! The tensor plan: which format a file is, the `MRB1` header, one split per tensor.

use crate::bytes::{
    le_at, le_bound, le_bytes, lemma_le_bytes_len, lemma_le_round_trip, push_le, u64_at,
};
use crate::error::{MorunaError, MorunaErrorView};
use crate::paths::{extension, extension_of, stem, stem_of};
use crate::text::{
    cat2, cat3, cat4, cat5, chars_of, debug_text, dec, dec_text, quoted, same, texts,
};
use vstd::prelude::*;
use vstd::string::*;

verus! {

/// The bytes read speculatively to find a header.
pub const PROBE_BYTES: u64 = 65536;

/// The most dimensions an `MRB1` header can hold.
pub const MAX_NDIM: usize = 8;

/// The version of `MRB1` that is read.
pub const MRB1_VERSION: u64 = 1;

/// What the payload offset of an `MRB1` file is a multiple of.
pub const MRB1_ALIGN: u64 = 4096;

/// An element type.
#[derive(Clone, Copy, Debug, PartialEq, Eq, Structural)]
pub enum DType {
    I8,
    I16,
    I32,
    I64,
    U8,
    U16,
    U32,
    U64,
    F16,
    F32,
    F64,
    Bool,
}

impl DType {
    /// The bytes of one element.
    pub open spec fn wide(self) -> nat {
        match self {
            DType::I8 | DType::U8 | DType::Bool => 1,
            DType::I16 | DType::U16 | DType::F16 => 2,
            DType::I32 | DType::U32 | DType::F32 => 4,
            DType::I64 | DType::U64 | DType::F64 => 8,
        }
    }

    /// The bytes of one element.
    pub fn width(&self) -> (n: u64)
        ensures
            n == self.wide(),
    {
        match self {
            DType::I8 | DType::U8 | DType::Bool => 1,
            DType::I16 | DType::U16 | DType::F16 => 2,
            DType::I32 | DType::U32 | DType::F32 => 4,
            DType::I64 | DType::U64 | DType::F64 => 8,
        }
    }

    /// The name of the type.
    pub open spec fn named(self) -> Seq<char> {
        match self {
            DType::I8 => "I8"@,
            DType::I16 => "I16"@,
            DType::I32 => "I32"@,
            DType::I64 => "I64"@,
            DType::U8 => "U8"@,
            DType::U16 => "U16"@,
            DType::U32 => "U32"@,
            DType::U64 => "U64"@,
            DType::F16 => "F16"@,
            DType::F32 => "F32"@,
            DType::F64 => "F64"@,
            DType::Bool => "Bool"@,
        }
    }

    /// The name of the type.
    pub fn name(&self) -> (s: &'static str)
        ensures
            s@ == self.named(),
    {
        match self {
            DType::I8 => "I8",
            DType::I16 => "I16",
            DType::I32 => "I32",
            DType::I64 => "I64",
            DType::U8 => "U8",
            DType::U16 => "U16",
            DType::U32 => "U32",
            DType::U64 => "U64",
            DType::F16 => "F16",
            DType::F32 => "F32",
            DType::F64 => "F64",
            DType::Bool => "Bool",
        }
    }
}

/// The elements of a shape of which no dimension is negative.
pub open spec fn elements(shape: Seq<i64>) -> int
    decreases shape.len(),
{
    if shape.len() == 0 {
        1
    } else {
        elements(shape.drop_last()) * shape.last()
    }
}

/// Whether no dimension is negative.
pub open spec fn proper(shape: Seq<i64>) -> bool {
    forall|i: int| 0 <= i < shape.len() ==> #[trigger] shape[i] >= 0
}

/// One tensor of a file.
#[derive(Debug)]
pub struct Entry {
    /// The file.
    pub path: String,
    /// The tensor's name.
    pub name: String,
    /// Its element type.
    pub dtype: DType,
    /// Its shape.
    pub shape: Vec<i64>,
    /// Where its payload begins in the file.
    pub data_offset: u64,
    /// The length of the file.
    pub file_len: u64,
}

/// An [`Entry`] as a mathematical value.
#[verifier::ext_equal]
pub struct EntryView {
    pub path: Seq<char>,
    pub name: Seq<char>,
    pub dtype: DType,
    pub shape: Seq<i64>,
    pub data_offset: u64,
    pub file_len: u64,
}

impl View for Entry {
    type V = EntryView;

    open spec fn view(&self) -> EntryView {
        EntryView {
            path: self.path@,
            name: self.name@,
            dtype: self.dtype,
            shape: self.shape@,
            data_offset: self.data_offset,
            file_len: self.file_len,
        }
    }
}

impl EntryView {
    /// The rows of a tensor: its first dimension, or one where it has none.
    pub open spec fn rows(self) -> int {
        if self.shape.len() == 0 {
            1
        } else {
            self.shape[0] as int
        }
    }

    /// The bytes of the payload.
    pub open spec fn bytes(self) -> int {
        elements(self.shape) * self.dtype.wide()
    }

    /// Where the payload ends in the file.
    pub open spec fn end(self) -> int {
        self.data_offset + self.bytes()
    }
}

/// A shape with a dimension of zero has no elements.
proof fn lemma_no_elements(shape: Seq<i64>, i: int)
    requires
        0 <= i < shape.len(),
        shape[i] == 0,
    ensures
        elements(shape) == 0,
    decreases shape.len(),
{
    if i < shape.len() - 1 {
        assert(shape.drop_last()[i] == 0);
        lemma_no_elements(shape.drop_last(), i);
    }
    vstd::arithmetic::mul::lemma_mul_basics(elements(shape.drop_last()));
    vstd::arithmetic::mul::lemma_mul_basics(shape.last() as int);
}

/// Elements only grow with dimensions of one or more.
proof fn lemma_elements_grow(shape: Seq<i64>, n: int)
    requires
        forall|i: int| 0 <= i < shape.len() ==> #[trigger] shape[i] >= 1,
        0 <= n <= shape.len(),
    ensures
        1 <= elements(shape.take(n)) <= elements(shape),
    decreases shape.len() - n,
{
    if n == shape.len() {
        assert(shape.take(n) =~= shape);
        lemma_elements_positive(shape);
    } else {
        lemma_elements_grow(shape, n + 1);
        assert(shape.take(n + 1).drop_last() =~= shape.take(n));
        lemma_elements_positive(shape.take(n));
        let e = elements(shape.take(n));
        vstd::arithmetic::mul::lemma_mul_increases(shape[n] as int, e);
        vstd::arithmetic::mul::lemma_mul_is_commutative(shape[n] as int, e);
    }
}

proof fn lemma_elements_positive(shape: Seq<i64>)
    requires
        forall|i: int| 0 <= i < shape.len() ==> #[trigger] shape[i] >= 1,
    ensures
        1 <= elements(shape),
    decreases shape.len(),
{
    if shape.len() > 0 {
        let init = shape.drop_last();
        assert forall|i: int| 0 <= i < init.len() implies #[trigger] init[i] >= 1 by {
            assert(init[i] == shape[i]);
        }
        lemma_elements_positive(init);
        assert(shape.last() == shape[shape.len() - 1]);
        vstd::arithmetic::mul::lemma_mul_strictly_positive(elements(init), shape.last() as int);
    }
}

/// The elements of a shape, if they can be counted in 64 bits.
fn count_elements(shape: &Vec<i64>) -> (r: Option<u64>)
    requires
        proper(shape@),
    ensures
        match r {
            Some(n) => n == elements(shape@),
            None => elements(shape@) > u64::MAX,
        },
{
    let mut z: usize = 0;
    while z < shape.len()
        invariant
            z <= shape@.len(),
            forall|i: int| 0 <= i < z ==> #[trigger] shape@[i] != 0,
        decreases shape@.len() - z,
    {
        if shape[z] == 0 {
            proof {
                lemma_no_elements(shape@, z as int);
            }
            return Some(0);
        }
        z += 1;
    }
    let mut n: u64 = 1;
    let mut i: usize = 0;
    while i < shape.len()
        invariant
            i <= shape@.len(),
            proper(shape@),
            forall|k: int| 0 <= k < shape@.len() ==> #[trigger] shape@[k] >= 1,
            n == elements(shape@.take(i as int)),
        decreases shape@.len() - i,
    {
        assert(shape@.take(i + 1).drop_last() =~= shape@.take(i as int));
        assert(shape@[i as int] >= 1);
        match n.checked_mul(shape[i] as u64) {
            Some(m) => {
                n = m;
            },
            None => {
                proof {
                    lemma_elements_grow(shape@, i + 1);
                }
                return None;
            },
        }
        i += 1;
    }
    assert(shape@.take(i as int) =~= shape@);
    Some(n)
}

impl Entry {
    /// The rows of the tensor.
    pub fn rows(&self) -> (n: u64)
        requires
            proper(self.shape@),
        ensures
            n == self@.rows(),
    {
        if self.shape.len() == 0 {
            1
        } else {
            assert(self.shape@[0] >= 0);
            self.shape[0] as u64
        }
    }

    /// The bytes of the payload, if they can be counted in 64 bits.
    pub fn bytes(&self) -> (r: Option<u64>)
        requires
            proper(self.shape@),
        ensures
            match r {
                Some(n) => n == self@.bytes(),
                None => self@.bytes() > u64::MAX,
            },
    {
        let w = self.dtype.width();
        match count_elements(&self.shape) {
            Some(n) => n.checked_mul(w),
            None => {
                proof {
                    vstd::arithmetic::mul::lemma_mul_inequality(1, w as int, elements(self.shape@));
                    vstd::arithmetic::mul::lemma_mul_is_commutative(w as int, elements(self.shape@));
                }
                None
            },
        }
    }

    /// Where the payload ends in the file, if it can be counted in 64 bits.
    pub fn end(&self) -> (r: Option<u64>)
        requires
            proper(self.shape@),
        ensures
            match r {
                Some(n) => n == self@.end(),
                None => self@.end() > u64::MAX,
            },
    {
        match self.bytes() {
            Some(n) => self.data_offset.checked_add(n),
            None => None,
        }
    }
}

/// Which of the formats a file is.
#[derive(Clone, Copy, Debug, PartialEq, Eq, Structural)]
pub enum Format {
    Safetensors,
    Npy,
    Amb1,
}

/// The magic of an `MRB1` file.
pub open spec fn mrb1_magic() -> Seq<u8> {
    seq![77u8, 82, 66, 49]
}

/// The magic of a `.npy` file.
pub open spec fn npy_magic() -> Seq<u8> {
    seq![0x93u8, 78, 85, 77, 80, 89]
}

/// Whether bytes start with a magic.
pub open spec fn starts(b: Seq<u8>, magic: Seq<u8>) -> bool {
    b.len() >= magic.len() && b.take(magic.len() as int) == magic
}

/// Whether bytes start with the magic of an `MRB1` file.
pub fn starts_mrb1(b: &[u8]) -> (r: bool)
    ensures
        r == starts(b@, mrb1_magic()),
{
    let r = b.len() >= 4 && b[0] == 77 && b[1] == 82 && b[2] == 66 && b[3] == 49;
    proof {
        if r {
            assert(b@.take(4) =~= mrb1_magic());
        } else if b@.len() >= 4 {
            let t = b@.take(4);
            assert(t[0] == b@[0] && t[1] == b@[1] && t[2] == b@[2] && t[3] == b@[3]);
        }
    }
    r
}

/// Whether bytes start with the magic of a `.npy` file.
pub fn starts_npy(b: &[u8]) -> (r: bool)
    ensures
        r == starts(b@, npy_magic()),
{
    let r = b.len() >= 6 && b[0] == 0x93 && b[1] == 78 && b[2] == 85 && b[3] == 77 && b[4] == 80
        && b[5] == 89;
    proof {
        if r {
            assert(b@.take(6) =~= npy_magic());
        } else if b@.len() >= 6 {
            let t = b@.take(6);
            assert(t[0] == b@[0] && t[1] == b@[1] && t[2] == b@[2] && t[3] == b@[3] && t[4] == b@[4]
                && t[5] == b@[5]);
        }
    }
    r
}

/// `c` with an upper-case ASCII letter made lower-case.
pub open spec fn lower(c: char) -> char {
    if 65 <= c as u32 <= 90 {
        (c as u32 + 32) as char
    } else {
        c
    }
}

/// A text with its upper-case ASCII letters made lower-case.
pub open spec fn lowered(s: Seq<char>) -> Seq<char> {
    s.map_values(|c: char| lower(c))
}

fn lower_char(c: char) -> (r: char)
    ensures
        r == lower(c),
{
    let n = c as u32;
    if 65 <= n && n <= 90 {
        (n as u8 + 32) as char
    } else {
        c
    }
}

fn lower_text(s: &str) -> (r: String)
    ensures
        r@ == lowered(s@),
{
    let v = chars_of(s);
    let mut out = String::new();
    let mut i: usize = 0;
    while i < v.len()
        invariant
            i <= v@.len(),
            v@ == s@,
            out@ == lowered(s@.take(i as int)),
        decreases v@.len() - i,
    {
        out.push(lower_char(v[i]));
        assert(lowered(s@.take(i + 1)) =~= lowered(s@.take(i as int)).push(lower(s@[i as int])));
        i += 1;
    }
    assert(s@.take(i as int) =~= s@);
    out
}

/// The extension a format is told by: lower-case, empty where a path has none.
pub open spec fn kind_of(path: Seq<char>) -> Seq<char> {
    match extension_of(path) {
        Some(e) => lowered(e),
        None => Seq::empty(),
    }
}

/// Which format a file is, by its extension and then by its magic.
pub fn detect(path: &str, prefix: &[u8]) -> (r: Result<Format, MorunaError>)
    ensures
        if kind_of(path@) == "safetensors"@ {
            r matches Ok(f) && f == Format::Safetensors
        } else if starts(prefix@, mrb1_magic()) {
            r matches Ok(f) && f == Format::Amb1
        } else if starts(prefix@, npy_magic()) {
            r matches Ok(f) && f == Format::Npy
        } else {
            r matches Err(e) && e@ == MorunaErrorView::Plan(
                path@ + ": not a safetensors, .npy or MRB1 file (extension "@ + debug_text(
                    kind_of(path@),
                ) + ", no known magic)"@,
            )
        },
{
    let kind = match extension(path) {
        Some(e) => lower_text(&e),
        None => String::new(),
    };
    assert(kind@ =~= kind_of(path@));
    if same(&kind, "safetensors") {
        return Ok(Format::Safetensors);
    }
    if starts_mrb1(prefix) {
        return Ok(Format::Amb1);
    }
    if starts_npy(prefix) {
        return Ok(Format::Npy);
    }
    let q = quoted(&kind);
    Err(
        MorunaError::Plan(
            cat4(
                path,
                ": not a safetensors, .npy or MRB1 file (extension ",
                &q,
                ", no known magic)",
            ),
        ),
    )
}

/// The signed number that 64 bits hold in two's complement.
pub open spec fn signed(v: nat) -> i64 {
    if v < 0x8000_0000_0000_0000 {
        v as i64
    } else {
        (v - 0x1_0000_0000_0000_0000) as i64
    }
}

/// The dimensions an `MRB1` header holds.
pub open spec fn header_shape(b: Seq<u8>, ndim: nat) -> Seq<i64> {
    Seq::new(ndim, |i: int| signed(le_at(b, 8 + 8 * i, 8)))
}

/// Dimensions as an `MRB1` header holds them.
pub open spec fn dimension_bytes(shape: Seq<i64>) -> Seq<u8>
    decreases shape.len(),
{
    if shape.len() == 0 {
        Seq::empty()
    } else {
        dimension_bytes(shape.drop_last()) + le_bytes(shape.last() as nat, 8)
    }
}

/// Where a header of `ndim` dimensions ends.
pub open spec fn header_end(ndim: nat) -> nat {
    16 + 8 * ndim
}

/// An `MRB1` header without its padding: the magic, the version, the type's code, the number of
/// dimensions, the dimensions and the payload's offset.
pub open spec fn header_bytes(code: u8, shape: Seq<i64>, data_offset: u64) -> Seq<u8> {
    mrb1_magic() + le_bytes(MRB1_VERSION as nat, 2) + seq![code, shape.len() as u8]
        + dimension_bytes(shape) + le_bytes(data_offset as nat, 8)
}

/// An `MRB1` header with the zeros up to the payload.
pub open spec fn header_image(code: u8, shape: Seq<i64>, data_offset: u64) -> Seq<u8> {
    let head = header_bytes(code, shape, data_offset);
    head + Seq::new((data_offset - head.len()) as nat, |i: int| 0u8)
}

/// The element type a code names in a table of codes: that of its first line with the code.
pub open spec fn coded(codes: Seq<(u8, DType)>, code: u8) -> Option<DType>
    decreases codes.len(),
{
    if codes.len() == 0 {
        None
    } else if codes[0].0 == code {
        Some(codes[0].1)
    } else {
        coded(codes.drop_first(), code)
    }
}

/// What is wrong with an `MRB1` file.
pub open spec fn mrb1_error(path: Seq<char>, msg: Seq<char>) -> MorunaErrorView {
    MorunaErrorView::Io { op: "mrb1"@, target: path, msg }
}

/// What is wrong with a header's payload offset and dimensions, if anything.
pub open spec fn offset_fault(shape: Seq<i64>, data_offset: u64) -> Option<Seq<char>> {
    if data_offset as int % (MRB1_ALIGN as int) != 0 {
        Some("data_offset "@ + dec(data_offset as nat) + " is not a multiple of 4096"@)
    } else if data_offset < header_end(shape.len()) {
        Some("data_offset "@ + dec(data_offset as nat) + " is inside the header"@)
    } else if !proper(shape) {
        Some("a dimension is negative"@)
    } else {
        None
    }
}

/// The tensor that an `MRB1` file of `len` bytes holds, of which `b` is the beginning, or what
/// is wrong with the file. The header has to be, byte for byte and with its padding, the one
/// that its own fields give.
pub open spec fn mrb1_entry(
    path: Seq<char>,
    len: u64,
    b: Seq<u8>,
    codes: Seq<(u8, DType)>,
) -> Result<EntryView, MorunaErrorView> {
    let file = "file of "@ + dec(len as nat) + " bytes is "@;
    if b.len() < 16 {
        Err(mrb1_error(path, file + "shorter than a header"@))
    } else if coded(codes, b[6]) is None {
        Err(mrb1_error(path, "unknown dtype code "@ + dec(b[6] as nat)))
    } else if b[7] > MAX_NDIM {
        Err(mrb1_error(path, "ndim "@ + dec(b[7] as nat) + " exceeds "@ + dec(MAX_NDIM as nat)))
    } else if b.len() < header_end(b[7] as nat) {
        Err(
            mrb1_error(
                path,
                file + "short of the "@ + dec(header_end(b[7] as nat)) + "-byte header"@,
            ),
        )
    } else {
        let shape = header_shape(b, b[7] as nat);
        let data_offset = le_at(b, 8 + 8 * b[7], 8) as u64;
        let dtype = coded(codes, b[6])->Some_0;
        let entry = EntryView {
            path,
            name: match stem_of(path) {
                Some(n) => n,
                None => "tensor"@,
            },
            dtype,
            shape,
            data_offset,
            file_len: len,
        };
        if offset_fault(shape, data_offset) is Some {
            Err(mrb1_error(path, offset_fault(shape, data_offset)->Some_0))
        } else if b.len() < data_offset {
            Err(
                mrb1_error(
                    path,
                    file + "short of the "@ + dec(data_offset as nat)
                        + "-byte header and its padding"@,
                ),
            )
        } else if b.take(data_offset as int) != header_image(b[6], shape, data_offset) {
            Err(
                mrb1_error(
                    path,
                    "the header does not match the bytes the MRB1 writer would produce"@,
                ),
            )
        } else if entry.end() > u64::MAX {
            Err(mrb1_error(path, "the header claims more bytes than a file can hold"@))
        } else if len < entry.end() {
            Err(
                mrb1_error(
                    path,
                    file + "short of the "@ + dec(entry.end() as nat)
                        + " bytes the header claims"@,
                ),
            )
        } else {
            Ok(entry)
        }
    }
}

/// A result by its view.
pub open spec fn as_view(r: Result<Entry, MorunaError>) -> Result<EntryView, MorunaErrorView> {
    match r {
        Ok(e) => Ok(e@),
        Err(e) => Err(e@),
    }
}

fn lookup(codes: &Vec<(u8, DType)>, code: u8) -> (r: Option<DType>)
    ensures
        r == coded(codes@, code),
{
    assert(codes@.skip(0) =~= codes@);
    let mut i: usize = 0;
    while i < codes.len()
        invariant
            i <= codes@.len(),
            coded(codes@, code) == coded(codes@.skip(i as int), code),
        decreases codes@.len() - i,
    {
        assert(codes@.skip(i as int).drop_first() =~= codes@.skip(i + 1));
        if codes[i].0 == code {
            return Some(codes[i].1);
        }
        i += 1;
    }
    None
}

fn signed_of(v: u64) -> (r: i64)
    ensures
        r == signed(v as nat),
{
    if v < 0x8000_0000_0000_0000 {
        v as i64
    } else {
        (v - 0x8000_0000_0000_0000) as i64 + i64::MIN
    }
}

fn read_shape(b: &[u8], ndim: usize) -> (r: Vec<i64>)
    requires
        ndim <= MAX_NDIM,
        b@.len() >= header_end(ndim as nat),
    ensures
        r@ == header_shape(b@, ndim as nat),
{
    let mut out: Vec<i64> = Vec::new();
    let mut i: usize = 0;
    while i < ndim
        invariant
            i <= ndim <= MAX_NDIM,
            b@.len() >= header_end(ndim as nat),
            out@ == header_shape(b@, i as nat),
        decreases ndim - i,
    {
        out.push(signed_of(u64_at(b, 8 + 8 * i)));
        assert(header_shape(b@, (i + 1) as nat) =~= header_shape(b@, i as nat).push(
            signed(le_at(b@, 8 + 8 * i, 8)),
        ));
        i += 1;
    }
    out
}

fn all_proper(shape: &Vec<i64>) -> (r: bool)
    ensures
        r == proper(shape@),
{
    let mut i: usize = 0;
    while i < shape.len()
        invariant
            i <= shape@.len(),
            forall|k: int| 0 <= k < i ==> #[trigger] shape@[k] >= 0,
        decreases shape@.len() - i,
    {
        if shape[i] < 0 {
            return false;
        }
        i += 1;
    }
    true
}

fn fault_of(shape: &Vec<i64>, data_offset: u64) -> (r: Option<String>)
    requires
        shape@.len() <= MAX_NDIM,
    ensures
        match r {
            Some(m) => offset_fault(shape@, data_offset) == Some(m@),
            None => offset_fault(shape@, data_offset) is None,
        },
{
    if data_offset % MRB1_ALIGN != 0 {
        let d = dec_text(data_offset);
        return Some(cat3("data_offset ", &d, " is not a multiple of 4096"));
    }
    if data_offset < 16 + 8 * shape.len() as u64 {
        let d = dec_text(data_offset);
        return Some(cat3("data_offset ", &d, " is inside the header"));
    }
    if !all_proper(shape) {
        return Some("a dimension is negative".to_owned());
    }
    None
}

proof fn lemma_dimension_bytes_len(shape: Seq<i64>)
    ensures
        dimension_bytes(shape).len() == 8 * shape.len(),
    decreases shape.len(),
{
    if shape.len() > 0 {
        lemma_dimension_bytes_len(shape.drop_last());
        lemma_le_bytes_len(shape.last() as nat, 8);
    }
}

fn write_header(code: u8, shape: &Vec<i64>, data_offset: u64) -> (r: Vec<u8>)
    requires
        proper(shape@),
        shape@.len() <= MAX_NDIM,
    ensures
        r@ == header_bytes(code, shape@, data_offset),
        r@.len() == header_end(shape@.len()),
{
    let mut out: Vec<u8> = vec![77, 82, 66, 49];
    assert(out@ =~= mrb1_magic());
    push_le(&mut out, MRB1_VERSION, 2);
    let ghost front = mrb1_magic() + le_bytes(MRB1_VERSION as nat, 2);
    out.push(code);
    out.push(shape.len() as u8);
    let ghost front = front + seq![code, shape@.len() as u8];
    assert(out@ =~= front);
    assert(out@ + dimension_bytes(shape@.take(0)) =~= front);
    let mut i: usize = 0;
    while i < shape.len()
        invariant
            i <= shape@.len(),
            proper(shape@),
            out@ == front + dimension_bytes(shape@.take(i as int)),
        decreases shape@.len() - i,
    {
        assert(shape@[i as int] >= 0);
        push_le(&mut out, shape[i] as u64, 8);
        assert(shape@.take(i + 1).drop_last() =~= shape@.take(i as int));
        assert(out@ =~= front + dimension_bytes(shape@.take(i + 1)));
        i += 1;
    }
    assert(shape@.take(i as int) =~= shape@);
    push_le(&mut out, data_offset, 8);
    proof {
        lemma_dimension_bytes_len(shape@);
        lemma_le_bytes_len(MRB1_VERSION as nat, 2);
        lemma_le_bytes_len(data_offset as nat, 8);
    }
    out
}

/// Whether `b` is `head`, then zeros up to `width`.
fn padded(b: &[u8], head: &Vec<u8>, width: usize) -> (r: bool)
    requires
        head@.len() <= width <= b@.len(),
    ensures
        r == (b@.take(width as int) == head@ + Seq::new((width - head@.len()) as nat, |i: int| 0u8)),
{
    let ghost whole = head@ + Seq::new((width - head@.len()) as nat, |i: int| 0u8);
    let mut i: usize = 0;
    while i < width
        invariant
            i <= width <= b@.len(),
            head@.len() <= width,
            whole == head@ + Seq::new((width - head@.len()) as nat, |k: int| 0u8),
            forall|k: int| 0 <= k < i ==> b@[k] == #[trigger] whole[k],
        decreases width - i,
    {
        let wanted: u8 = if i < head.len() {
            head[i]
        } else {
            0
        };
        if b[i] != wanted {
            assert(b@.take(width as int)[i as int] != whole[i as int]);
            return false;
        }
        i += 1;
    }
    assert(b@.take(width as int) =~= whole);
    true
}

/// The tensor that an `MRB1` file of `len` bytes holds, of which `prefix` is the beginning;
/// `codes` gives the codes of the element types.
pub fn amb1_plan(path: &str, len: u64, prefix: &[u8], codes: &Vec<(u8, DType)>) -> (r: Result<
    Entry,
    MorunaError,
>)
    ensures
        as_view(r) == mrb1_entry(path@, len, prefix@, codes@),
{
    let n = dec_text(len);
    let file = cat3("file of ", &n, " bytes is ");
    if prefix.len() < 16 {
        let m = cat2(&file, "shorter than a header");
        return Err(MorunaError::io("mrb1", path, &m));
    }
    let code = prefix[6];
    let dtype = match lookup(codes, code) {
        Some(d) => d,
        None => {
            let d = dec_text(code as u64);
            let m = cat2("unknown dtype code ", &d);
            return Err(MorunaError::io("mrb1", path, &m));
        },
    };
    let ndim = prefix[7] as usize;
    if ndim > MAX_NDIM {
        let d = dec_text(ndim as u64);
        let most = dec_text(MAX_NDIM as u64);
        let m = cat4("ndim ", &d, " exceeds ", &most);
        return Err(MorunaError::io("mrb1", path, &m));
    }
    let end = 16 + 8 * ndim;
    if prefix.len() < end {
        let d = dec_text(end as u64);
        let m = cat4(&file, "short of the ", &d, "-byte header");
        return Err(MorunaError::io("mrb1", path, &m));
    }
    let shape = read_shape(prefix, ndim);
    let data_offset = u64_at(prefix, 8 + 8 * ndim);
    if let Some(m) = fault_of(&shape, data_offset) {
        return Err(MorunaError::io("mrb1", path, &m));
    }
    if (prefix.len() as u64) < data_offset {
        let d = dec_text(data_offset);
        let m = cat4(&file, "short of the ", &d, "-byte header and its padding");
        return Err(MorunaError::io("mrb1", path, &m));
    }
    let head = write_header(code, &shape, data_offset);
    if !padded(prefix, &head, data_offset as usize) {
        return Err(
            MorunaError::io(
                "mrb1",
                path,
                "the header does not match the bytes the MRB1 writer would produce",
            ),
        );
    }
    let name = match stem(path) {
        Some(n) => n,
        None => "tensor".to_owned(),
    };
    let entry = Entry { path: path.to_owned(), name, dtype, shape, data_offset, file_len: len };
    match entry.end() {
        None => Err(
            MorunaError::io("mrb1", path, "the header claims more bytes than a file can hold"),
        ),
        Some(end) => if len < end {
            let d = dec_text(end);
            let m = cat4(&file, "short of the ", &d, " bytes the header claims");
            Err(MorunaError::io("mrb1", path, &m))
        } else {
            Ok(entry)
        },
    }
}

proof fn lemma_dimension_at(shape: Seq<i64>, i: int)
    requires
        0 <= i < shape.len(),
    ensures
        dimension_bytes(shape).len() == 8 * shape.len(),
        dimension_bytes(shape).subrange(8 * i, 8 * i + 8) == le_bytes(shape[i] as nat, 8),
    decreases shape.len(),
{
    let init = shape.drop_last();
    lemma_dimension_bytes_len(shape);
    lemma_dimension_bytes_len(init);
    lemma_le_bytes_len(shape.last() as nat, 8);
    let d = dimension_bytes(shape);
    if i == shape.len() - 1 {
        assert(d.subrange(8 * i, 8 * i + 8) =~= le_bytes(shape[i] as nat, 8));
    } else {
        lemma_dimension_at(init, i);
        assert(d.subrange(8 * i, 8 * i + 8) =~= dimension_bytes(init).subrange(8 * i, 8 * i + 8));
    }
}

/// A file that begins with the header of a tensor, and is long enough for the payload, is
/// planned as that tensor.
pub proof fn law_a_written_header_is_read(
    path: Seq<char>,
    len: u64,
    b: Seq<u8>,
    codes: Seq<(u8, DType)>,
    code: u8,
    shape: Seq<i64>,
    data_offset: u64,
)
    requires
        coded(codes, code) is Some,
        shape.len() <= MAX_NDIM,
        offset_fault(shape, data_offset) is None,
        b.len() >= data_offset,
        b.take(data_offset as int) == header_image(code, shape, data_offset),
        data_offset + elements(shape) * coded(codes, code)->Some_0.wide() <= len,
    ensures
        mrb1_entry(path, len, b, codes) is Ok,
        mrb1_entry(path, len, b, codes)->Ok_0.dtype == coded(codes, code)->Some_0,
        mrb1_entry(path, len, b, codes)->Ok_0.shape == shape,
        mrb1_entry(path, len, b, codes)->Ok_0.data_offset == data_offset,
{
    let head = header_bytes(code, shape, data_offset);
    let image = header_image(code, shape, data_offset);
    let n = shape.len() as int;
    lemma_dimension_bytes_len(shape);
    lemma_le_bytes_len(MRB1_VERSION as nat, 2);
    lemma_le_bytes_len(data_offset as nat, 8);
    assert(head.len() == header_end(n as nat));
    assert(forall|i: int| 0 <= i < head.len() ==> #[trigger] b.take(data_offset as int)[i] == head[i]);
    assert forall|i: int| 0 <= i < head.len() implies #[trigger] b[i] == head[i] by {
        assert(b.take(data_offset as int)[i] == head[i]);
    }
    assert(b[6] == code && b[7] == n as u8);
    reveal_with_fuel(le_bound, 9);
    assert forall|i: int| 0 <= i < n implies signed(#[trigger] le_at(b, 8 + 8 * i, 8)) == shape[i] by {
        lemma_dimension_at(shape, i);
        assert(shape[i] >= 0);
        assert(b.subrange(8 + 8 * i, 8 + 8 * i + 8) =~= dimension_bytes(shape).subrange(
            8 * i,
            8 * i + 8,
        ));
        lemma_le_round_trip(b, 8 + 8 * i, shape[i] as nat, 8);
    }
    assert(header_shape(b, n as nat) =~= shape);
    assert(b.subrange(8 + 8 * n, 8 + 8 * n + 8) =~= le_bytes(data_offset as nat, 8));
    lemma_le_round_trip(b, 8 + 8 * n, data_offset as nat, 8);
}

/// Entries by their views.
pub open spec fn views(entries: Seq<Entry>) -> Seq<EntryView> {
    entries.map_values(|e: Entry| e@)
}

/// The entries whose names are wanted, in their order.
pub open spec fn retained(entries: Seq<EntryView>, wanted: Seq<Seq<char>>) -> Seq<EntryView>
    decreases entries.len(),
{
    if entries.len() == 0 {
        Seq::empty()
    } else {
        let rest = retained(entries.drop_last(), wanted);
        if wanted.contains(entries.last().name) {
            rest.push(entries.last())
        } else {
            rest
        }
    }
}

/// Whether some entry has a name.
pub open spec fn named_in(entries: Seq<EntryView>, name: Seq<char>) -> bool {
    exists|i: int| 0 <= i < entries.len() && (#[trigger] entries[i]).name == name
}

fn copy_entry(e: &Entry) -> (r: Entry)
    ensures
        r@ == e@,
{
    let shape = e.shape.clone();
    assert(shape@ =~= e.shape@);
    Entry {
        path: e.path.clone(),
        name: e.name.clone(),
        dtype: e.dtype,
        shape,
        data_offset: e.data_offset,
        file_len: e.file_len,
    }
}

fn is_wanted(wanted: &Vec<String>, name: &String) -> (r: bool)
    ensures
        r == texts(wanted@).contains(name@),
{
    let mut i: usize = 0;
    while i < wanted.len()
        invariant
            i <= wanted@.len(),
            forall|k: int| 0 <= k < i ==> #[trigger] texts(wanted@)[k] != name@,
        decreases wanted@.len() - i,
    {
        if same(&wanted[i], name) {
            assert(texts(wanted@)[i as int] == name@);
            return true;
        }
        i += 1;
    }
    false
}

fn has_name(entries: &Vec<Entry>, name: &String) -> (r: bool)
    ensures
        r == named_in(views(entries@), name@),
{
    let mut i: usize = 0;
    while i < entries.len()
        invariant
            i <= entries@.len(),
            forall|k: int| 0 <= k < i ==> (#[trigger] views(entries@)[k]).name != name@,
        decreases entries@.len() - i,
    {
        if same(&entries[i].name, name) {
            assert(views(entries@)[i as int].name == name@);
            return true;
        }
        i += 1;
    }
    false
}

/// The entries whose names are wanted, in their order.
fn retain(entries: &Vec<Entry>, wanted: &Vec<String>) -> (r: Vec<Entry>)
    ensures
        views(r@) == retained(views(entries@), texts(wanted@)),
{
    let mut out: Vec<Entry> = Vec::new();
    let mut i: usize = 0;
    assert(views(out@) =~= retained(views(entries@).take(0), texts(wanted@)));
    while i < entries.len()
        invariant
            i <= entries@.len(),
            views(out@) == retained(views(entries@).take(i as int), texts(wanted@)),
        decreases entries@.len() - i,
    {
        assert(views(entries@).take(i + 1).drop_last() =~= views(entries@).take(i as int));
        if is_wanted(wanted, &entries[i].name) {
            let ghost before = out@;
            out.push(copy_entry(&entries[i]));
            assert(views(out@) =~= views(before).push(views(entries@)[i as int]));
        }
        i += 1;
    }
    assert(views(entries@).take(i as int) =~= views(entries@));
    out
}

/// What a plan keeps of a file's entries.
pub open spec fn kept(entries: Seq<EntryView>, wanted: Option<Seq<Seq<char>>>) -> Seq<EntryView> {
    match wanted {
        Some(w) => retained(entries, w),
        None => entries,
    }
}

/// The `k`th wanted name is the first that no kept entry has.
pub open spec fn first_absent(entries: Seq<EntryView>, wanted: Seq<Seq<char>>, k: int) -> bool {
    &&& 0 <= k < wanted.len()
    &&& !named_in(retained(entries, wanted), wanted[k])
    &&& forall|j: int| 0 <= j < k ==> named_in(retained(entries, wanted), #[trigger] wanted[j])
}

/// Whether some wanted name is one that no kept entry has.
pub open spec fn some_absent(entries: Seq<EntryView>, wanted: Option<Seq<Seq<char>>>) -> bool {
    wanted is Some && exists|k: int| #[trigger] first_absent(entries, wanted->Some_0, k)
}

/// The wanted names, where some are given.
pub open spec fn wanted_texts(wanted: Option<&Vec<String>>) -> Option<Seq<Seq<char>>> {
    match wanted {
        Some(w) => Some(texts(w@)),
        None => None,
    }
}

/// The `k`th entry is the first that ends past `len`.
pub open spec fn first_past(entries: Seq<EntryView>, len: u64, k: int) -> bool {
    &&& 0 <= k < entries.len()
    &&& entries[k].end() > len
    &&& forall|j: int| 0 <= j < k ==> (#[trigger] entries[j]).end() <= len
}

/// What is said of an entry that ends past its file.
pub open spec fn past_text(text: Seq<char>, e: EntryView, len: u64) -> Seq<char> {
    if e.end() <= u64::MAX {
        text + ": tensor "@ + e.name + " claims bytes to "@ + (dec(e.end() as nat)
            + " but the file is "@ + dec(len as nat) + " bytes"@)
    } else {
        text + ": tensor "@ + e.name + " claims more bytes than a file can hold"@
    }
}

/// What a plan keeps of the entries of the file `text`, which has `len` bytes: those of wanted
/// names, where names are given. A wanted name that is absent is an error where the file is the
/// only one; so is an entry that ends past the file.
#[verifier::loop_isolation(false)]
pub fn select(
    text: &str,
    len: u64,
    entries: Vec<Entry>,
    wanted: Option<&Vec<String>>,
    single: bool,
) -> (r: Result<Vec<Entry>, MorunaError>)
    requires
        forall|i: int| 0 <= i < entries@.len() ==> proper((#[trigger] entries@[i]).shape@),
    ensures
        ({
            let names = wanted_texts(wanted);
            let keep = kept(views(entries@), names);
            let absent = single && some_absent(views(entries@), names);
            match r {
                Ok(out) => !absent && views(out@) == keep && forall|i: int|
                    0 <= i < keep.len() ==> (#[trigger] keep[i]).end() <= len,
                Err(e) => {
                    ||| absent && exists|k: int| #[trigger]
                        first_absent(views(entries@), names->Some_0, k) && e@
                            == MorunaErrorView::Plan(
                            text@ + ": no tensor named "@ + names->Some_0[k] + " in the file"@,
                        )
                    ||| !absent && exists|k: int| #[trigger]
                        first_past(keep, len, k) && e@ == MorunaErrorView::Plan(
                            past_text(text@, keep[k], len),
                        )
                },
            }
        }),
{
    let ghost all = views(entries@);
    proof {
        lemma_retained_proper(all, match wanted {
            Some(w) => texts(w@),
            None => Seq::empty(),
        });
        assert forall|i: int| 0 <= i < all.len() implies proper((#[trigger] all[i]).shape) by {
            assert(all[i] == entries@[i]@);
        }
    }
    let out = match wanted {
        Some(w) => {
            let out = retain(&entries, w);
            if single {
                let mut k: usize = 0;
                while k < w.len()
                    invariant
                        k <= w@.len(),
                        all == views(entries@),
                        single,
                        wanted == Some(w),
                        views(out@) == retained(all, texts(w@)),
                        forall|j: int|
                            0 <= j < k ==> named_in(views(out@), #[trigger] texts(w@)[j]),
                    decreases w@.len() - k,
                {
                    if !has_name(&out, &w[k]) {
                        assert(texts(w@)[k as int] == w@[k as int]@);
                        assert(first_absent(all, texts(w@), k as int));
                        assert(wanted_texts(wanted)->Some_0 == texts(w@));
                        assert(first_absent(all, wanted_texts(wanted)->Some_0, k as int));
                        return Err(
                            MorunaError::Plan(cat4(text, ": no tensor named ", &w[k], " in the file")),
                        );
                    }
                    assert(texts(w@)[k as int] == w@[k as int]@);
                    k += 1;
                }
            }
            out
        },
        None => entries,
    };
    let ghost keep = views(out@);
    let mut i: usize = 0;
    while i < out.len()
        invariant
            keep == kept(all, wanted_texts(wanted)),
            !(single && some_absent(all, wanted_texts(wanted))),
            i <= out@.len(),
            keep == views(out@),
            forall|k: int| 0 <= k < keep.len() ==> proper((#[trigger] keep[k]).shape),
            forall|k: int| 0 <= k < i ==> (#[trigger] keep[k]).end() <= len,
        decreases out@.len() - i,
    {
        assert(keep[i as int] == out@[i as int]@);
        match out[i].end() {
            Some(end) => if end > len {
                assert(first_past(keep, len, i as int));
                let a = dec_text(end);
                let b = dec_text(len);
                let tail = cat4(&a, " but the file is ", &b, " bytes");
                return Err(
                    MorunaError::Plan(
                        cat5(text, ": tensor ", &out[i].name, " claims bytes to ", &tail),
                    ),
                );
            },
            None => {
                assert(first_past(keep, len, i as int));
                return Err(
                    MorunaError::Plan(
                        cat4(
                            text,
                            ": tensor ",
                            &out[i].name,
                            " claims more bytes than a file can hold",
                        ),
                    ),
                );
            },
        }
        i += 1;
    }
    Ok(out)
}

proof fn lemma_retained_proper(entries: Seq<EntryView>, wanted: Seq<Seq<char>>)
    ensures
        (forall|i: int| 0 <= i < entries.len() ==> proper((#[trigger] entries[i]).shape)) ==> forall|i: int|
            0 <= i < retained(entries, wanted).len() ==> proper(
                (#[trigger] retained(entries, wanted)[i]).shape,
            ),
    decreases entries.len(),
{
    if entries.len() > 0 {
        let init = entries.drop_last();
        lemma_retained_proper(init, wanted);
        if forall|i: int| 0 <= i < entries.len() ==> proper((#[trigger] entries[i]).shape) {
            assert forall|i: int| 0 <= i < init.len() implies proper((#[trigger] init[i]).shape) by {
                assert(init[i] == entries[i]);
            }
            assert(entries.last() == entries[entries.len() - 1]);
        }
    }
}

/// How many bytes of a file of `len` bytes are read to find its header.
pub fn probe_len(len: u64) -> (n: u64)
    ensures
        1 <= n <= PROBE_BYTES,
        1 <= len <= PROBE_BYTES ==> n == len,
        len > PROBE_BYTES ==> n == PROBE_BYTES,
        len == 0 ==> n == 1,
{
    let least = if len < 1 {
        1
    } else {
        len
    };
    if PROBE_BYTES < least {
        PROBE_BYTES
    } else {
        least
    }
}

/// Whether a source can be planned over so many paths.
pub fn check_paths(paths: usize) -> (r: Result<(), MorunaError>)
    ensures
        match r {
            Ok(()) => paths > 0,
            Err(e) => paths == 0 && e@ == MorunaErrorView::Plan(
                "a TensorSource needs at least one path"@,
            ),
        },
{
    if paths == 0 {
        Err(MorunaError::Plan("a TensorSource needs at least one path".to_owned()))
    } else {
        Ok(())
    }
}

/// Whether a path can be read, by whether it names a local file.
pub fn check_local(text: &str, local: bool) -> (r: Result<(), MorunaError>)
    ensures
        match r {
            Ok(()) => local,
            Err(e) => !local && e@ == MorunaErrorView::Plan(
                text@
                    + ": TensorSource reads local files only in v1; an object URL is a plan error"@,
            ),
        },
{
    if local {
        Ok(())
    } else {
        Err(
            MorunaError::Plan(
                cat2(
                    text,
                    ": TensorSource reads local files only in v1; an object URL is a plan error",
                ),
            ),
        )
    }
}

/// Whether a plan found anything.
pub fn check_found(found: usize) -> (r: Result<(), MorunaError>)
    ensures
        match r {
            Ok(()) => found > 0,
            Err(e) => found == 0 && e@ == MorunaErrorView::Plan(
                "no tensor matched the configuration"@,
            ),
        },
{
    if found == 0 {
        Err(MorunaError::Plan("no tensor matched the configuration".to_owned()))
    } else {
        Ok(())
    }
}

/// A unit of reading.
#[derive(Debug)]
pub struct Split {
    /// Its number in the plan.
    pub id: u64,
    /// Its rows.
    pub rows: u64,
    /// Its bytes.
    pub uncompressed_bytes: u64,
    /// Whether the bytes are an estimate.
    pub estimated: bool,
    /// The bytes of each column, of which a tensor has none.
    pub column_bytes: Vec<u64>,
    /// The nulls of each column, of which a tensor has none.
    pub null_counts: Vec<u64>,
    /// Whether ranges of its rows can be read.
    pub sub_splittable: bool,
}

/// Whether `s` is the split of the `i`th entry `e`.
pub open spec fn split_of(e: EntryView, i: int, s: Split) -> bool {
    &&& s.id == i
    &&& s.rows == e.rows()
    &&& s.uncompressed_bytes == e.bytes()
    &&& !s.estimated
    &&& s.column_bytes@.len() == 0
    &&& s.null_counts@.len() == 0
    &&& s.sub_splittable == (e.shape.len() > 0)
}

/// One split per entry, numbered in plan order; for entries that end inside their files.
pub fn splits(entries: &Vec<Entry>) -> (r: Vec<Split>)
    requires
        forall|i: int|
            0 <= i < entries@.len() ==> proper((#[trigger] entries@[i]).shape@)
                && entries@[i]@.bytes() <= u64::MAX,
    ensures
        r@.len() == entries@.len(),
        forall|i: int| 0 <= i < r@.len() ==> split_of(entries@[i]@, i, #[trigger] r@[i]),
{
    let mut out: Vec<Split> = Vec::new();
    let mut i: usize = 0;
    while i < entries.len()
        invariant
            i <= entries@.len(),
            out@.len() == i,
            forall|k: int|
                0 <= k < entries@.len() ==> proper((#[trigger] entries@[k]).shape@)
                    && entries@[k]@.bytes() <= u64::MAX,
            forall|k: int| 0 <= k < i ==> split_of(entries@[k]@, k, #[trigger] out@[k]),
        decreases entries@.len() - i,
    {
        let e = &entries[i];
        assert(proper(entries@[i as int].shape@));
        let bytes = match e.bytes() {
            Some(n) => n,
            None => 0,
        };
        out.push(
            Split {
                id: i as u64,
                rows: e.rows(),
                uncompressed_bytes: bytes,
                estimated: false,
                column_bytes: Vec::new(),
                null_counts: Vec::new(),
                sub_splittable: e.shape.len() > 0,
            },
        );
        i += 1;
    }
    out
}

/// What a tensor source declares.
#[derive(Debug)]
pub struct TensorSchema {
    /// The element type.
    pub dtype: DType,
    /// The shape, of which a negative dimension varies.
    pub shape: Vec<i64>,
}

/// A shape with a variable first dimension.
pub open spec fn batched(shape: Seq<i64>) -> Seq<i64> {
    if shape.len() == 0 {
        shape
    } else {
        shape.update(0, (-1) as i64)
    }
}

/// The `k`th entry is the first with another element type than the first.
pub open spec fn first_other(entries: Seq<Entry>, k: int) -> bool {
    &&& 0 < k < entries.len()
    &&& entries[k].dtype != entries[0].dtype
    &&& forall|j: int| 0 <= j < k ==> (#[trigger] entries[j]).dtype == entries[0].dtype
}

/// The schema of a tensor source: the element type that every entry shares and the shape of the
/// first, with a variable first dimension.
pub fn schema(entries: &Vec<Entry>) -> (r: Result<TensorSchema, MorunaError>)
    ensures
        match r {
            Ok(s) => entries@.len() > 0 && s.dtype == entries@[0].dtype && s.shape@ == batched(
                entries@[0].shape@,
            ) && forall|i: int|
                0 <= i < entries@.len() ==> (#[trigger] entries@[i]).dtype == s.dtype,
            Err(e) => {
                ||| entries@.len() == 0 && e@ == MorunaErrorView::Plan(
                    "no tensor matched the configuration"@,
                )
                ||| entries@.len() > 0 && exists|k: int| #[trigger]
                    first_other(entries@, k) && e@ == MorunaErrorView::Plan(
                        "tensors "@ + entries@[0].name@ + " and "@ + entries@[k].name@
                            + (" have different dtypes ("@ + entries@[0].dtype.named() + " and "@
                            + entries@[k].dtype.named() + "); one source has one schema"@),
                    )
            },
        },
{
    if entries.len() == 0 {
        return Err(MorunaError::Plan("no tensor matched the configuration".to_owned()));
    }
    let first = &entries[0];
    let mut i: usize = 0;
    while i < entries.len()
        invariant
            i <= entries@.len(),
            0 < entries@.len(),
            *first == entries@[0],
            forall|k: int| 0 <= k < i ==> (#[trigger] entries@[k]).dtype == first.dtype,
        decreases entries@.len() - i,
    {
        if entries[i].dtype != first.dtype {
            assert(first_other(entries@, i as int));
            let a = first.dtype.name();
            let b = entries[i].dtype.name();
            let tail = cat5(" have different dtypes (", a, " and ", b, "); one source has one schema");
            return Err(
                MorunaError::Plan(cat5("tensors ", &first.name, " and ", &entries[i].name, &tail)),
            );
        }
        i += 1;
    }
    let mut shape = first.shape.clone();
    assert(shape@ =~= first.shape@);
    if shape.len() > 0 {
        shape.set(0, -1);
    }
    Ok(TensorSchema { dtype: first.dtype, shape })
}

} // verus!
