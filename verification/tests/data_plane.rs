//! Sources, stand-ins and the trace.

use moruna::error::{MorunaError, SegmentRef, Tier};
use moruna::sources::group::{begin_read, copy_done, payload_made, GroupRead};
use moruna::sources::npy;
use moruna::sources::plan::{
    amb1_plan, check_found, check_local, check_paths, detect, probe_len, schema, select, splits,
    DType, Entry, Format,
};
use moruna::sources::read::{
    check_fetch, check_rows, coalesce, fetch_len, ranges_of, row_group, selection, RowRange,
    COALESCE_GAP,
};
use moruna::sources::stats::{Count, Counters, SourceStats};
use moruna::testkit::allocator::{FakeAllocator, Refusal, Release, NO_TOKEN};
use moruna::testkit::sampler::{FakeSampler, Sample};
use moruna::testkit::sink::FakeSink;
use moruna::testkit::trace::FakeTrace;
use moruna::trace::record::TraceRecord;
use moruna::trace::render::{
    bytes_binary, rate_binary, ExitReason, IoPaths, Limits, RunReport, StageReport,
};
use moruna::trace::view::{records, Chunk, Next, TraceView};

#[test]
fn close_spans_become_one_page_aligned_range() {
    let spans = [(4100u64, 5000u64), (5100, 6000)];
    assert_eq!(coalesce(&spans, 4096, 1_000_000), vec![(4096, 8192)]);
}

#[test]
fn a_wide_gap_stays_two_ranges_and_clips_at_the_file_end() {
    let spans = [(0u64, 100), (2 * COALESCE_GAP, 2 * COALESCE_GAP + 100)];
    let out = coalesce(&spans, 4096, 2 * COALESCE_GAP + 50);
    assert_eq!(out.len(), 2);
    assert_eq!(out[0], (0, 4096));
    assert_eq!(out[1].1, 2 * COALESCE_GAP + 50);
}

#[test]
fn rounding_that_overlaps_merges() {
    let spans = [(0u64, 10), (4090, 4100)];
    assert_eq!(coalesce(&spans, 4096, 1_000_000), vec![(0, 8192)]);
}

#[test]
fn chunks_out_of_order_are_fetched_in_order() {
    // Starts and lengths, last chunk first; the first and the last are a wide gap apart.
    let far = 3 * COALESCE_GAP;
    let chunks = vec![(far, 10), (5000, 100), (100, 50)];
    assert_eq!(
        ranges_of(&chunks, 4096, 2 * far),
        vec![(0, 8192), (far, far + 4096)]
    );
    assert_eq!(ranges_of(&Vec::new(), 4096, 10), vec![]);
}

#[test]
fn ranges_end_on_pages_or_at_the_file_end_and_hold_a_span_each() {
    let far = 3 * COALESCE_GAP;
    let spans = [(100u64, 150u64), (5000, 5100), (far, far + 10)];
    let out = coalesce(&spans, 4096, far + 20);
    assert_eq!(out, vec![(0, 8192), (far, far + 20)]);
    assert!(out.iter().all(|r| r.1 % 4096 == 0 || r.1 == far + 20));
    assert!(out.iter().all(|r| spans.iter().any(|s| r.0 <= s.0 && s.1 <= r.1)));
    assert!(coalesce(&[], 4096, far).is_empty());
}

#[test]
fn a_row_group_is_read_range_by_range() {
    let far = 3 * COALESCE_GAP;
    let chunks = vec![(far, 10), (5000, 100), (100, 50)];
    let mut r = GroupRead::new(6, "f".to_string(), &chunks, 4096, far + 20);
    assert_eq!((r.split, r.file_len, r.done), (6, far + 20, 0));
    assert_eq!(r.ranges, vec![(0, 8192), (far, far + 20)]);
    assert_eq!(r.next().expect("a range"), Some((0, 8192)));

    // A failed fetch and a short one leave the range to be fetched.
    let e = r.fetched(Err("no disk".to_string())).expect_err("failed").to_string();
    assert!(e.contains("reading bytes 0..8192 of f: no disk"), "{e}");
    let e = r.fetched(Ok(100)).expect_err("short").to_string();
    assert!(e.contains("f: bytes 0..8192 came back short at 100"), "{e}");
    assert_eq!(r.next().expect("a range"), Some((0, 8192)));

    r.fetched(Ok(8192)).expect("whole");
    assert_eq!(r.next().expect("a range"), Some((far, 20)));
    r.fetched(Ok(20)).expect("whole");
    assert_eq!((r.next().expect("the end"), r.done), (None, 2));
}

#[test]
fn one_read_counts_once_and_notes_what_it_copied() {
    let mut c = Counters::default();
    assert_eq!(begin_read(&mut c, 1, 3, 2).expect("a group"), 2);
    assert_eq!(copy_done(&mut c, 700), 700);
    payload_made(&mut c, false);
    let once = SourceStats {
        reads: 1,
        decode_bytes: 700,
        ..SourceStats::default()
    };
    assert_eq!(c.snapshot(), once);

    // A read whose row group is missing is counted too.
    let e = begin_read(&mut c, 1, 3, 3).expect_err("no group").to_string();
    assert!(e.contains("the plan names no such row group"), "{e}");
    assert_eq!(copy_done(&mut c, 5), 5);
    payload_made(&mut c, true);
    let twice = SourceStats {
        reads: 2,
        decode_bytes: 705,
        oversized_rows: 1,
        ..SourceStats::default()
    };
    assert_eq!(c.snapshot(), twice);
}

#[test]
fn reads_are_checked() {
    assert_eq!(row_group(1, 3, 2).expect("a group"), 2);
    let e = row_group(1, 3, 3).expect_err("no group").to_string();
    assert!(e.contains("the plan names no such row group"), "{e}");
    assert_eq!(fetch_len(1, 10, 30).expect("a length"), 20);
    assert!(check_fetch(1, "f", 0, 100, 100, 500).is_ok());
    assert!(check_fetch(1, "f", 0, 100, 60, 60).is_ok(), "the file ends there");
    let e = check_fetch(7, "f", 10, 100, 60, 500).expect_err("short");
    assert!(matches!(e, MorunaError::Source { split: 7, .. }));
    assert!(e.to_string().contains("f: bytes 10..100 came back short at 70"), "{e:?}");
    let whole = selection(RowRange { start: 0, end: 8 }, 8);
    assert_eq!((whole.batch, whole.partial), (8, false));
    let part = selection(RowRange { start: 2, end: 8 }, 8);
    assert_eq!((part.batch, part.partial), (6, true));
    assert_eq!(selection(RowRange { start: 3, end: 3 }, 8).batch, 1);
    assert!(check_rows(0, 6, RowRange { start: 2, end: 8 }).is_ok());
    let e = check_rows(0, 5, RowRange { start: 2, end: 8 }).expect_err("rows").to_string();
    assert!(e.contains("the decoder returned 5 rows for a range of 6"), "{e}");
}

#[test]
fn counters_add_up() {
    let mut c = Counters::default();
    assert_eq!(c.snapshot(), SourceStats::default());
    c.add(Count::Reads, 2);
    c.add(Count::DecodeBytes, 100);
    c.add(Count::Reads, 1);
    let s = c.snapshot();
    assert_eq!((s.reads, s.decode_bytes, s.splits), (3, 100, 0));
    c.add(Count::Splits, u64::MAX);
    c.add(Count::Splits, 2);
    assert_eq!(c.snapshot().splits, 1, "a counter wraps");
}

const HEADER: &str = "{'descr': '<f4', 'fortran_order': False, 'shape': (3, 2), }                ";

fn owned(s: &str) -> Option<String> {
    Some(s.to_string())
}

#[test]
fn fields_are_found_and_parsed() {
    assert_eq!(npy::field(HEADER, "descr"), owned(" '<f4'"));
    assert_eq!(npy::field(HEADER, "fortran_order"), owned(" False"));
    assert_eq!(npy::field(HEADER, "shape"), owned(" (3, 2)"));
    assert_eq!(npy::field(HEADER, "missing"), None);
    assert_eq!(npy::parse_shape(" (3, 2)"), Some(vec![3, 2]));
    assert_eq!(npy::parse_shape("()"), Some(Vec::new()));
    assert_eq!(npy::parse_shape("(5,)"), Some(vec![5]));
    assert_eq!(npy::parse_shape("(-1,)"), None);
    assert_eq!(npy::parse_shape("3, 2"), None);
    assert_eq!(npy::field("{\"descr\": \"<f8\"}", "descr"), owned(" \"<f8\""));
}

#[test]
fn dtypes_map_by_code_and_reject_big_endian() {
    assert_eq!(npy::dtype_of("<f4"), Some(DType::F32));
    assert_eq!(npy::dtype_of("|b1"), Some(DType::Bool));
    assert_eq!(npy::dtype_of("=i8"), Some(DType::I64));
    assert_eq!(npy::dtype_of("f8"), Some(DType::F64));
    assert_eq!(npy::dtype_of(">f4"), None);
    assert_eq!(npy::dtype_of("<U8"), None);
    assert_eq!(npy::dtype_of(""), None);
    assert_eq!(npy::dtype_of("b"), Some(DType::I8));
    assert_eq!(npy::dtype_of("?"), Some(DType::Bool));
    assert_eq!(npy::dtype_of("é4"), None);
}

fn npy_header(text: &str) -> String {
    let mut h = text.to_string();
    while (10 + h.len() + 1) % 64 != 0 {
        h.push(' ');
    }
    h.push('\n');
    h
}

fn npy_v1(text: &str, payload: usize) -> Vec<u8> {
    let h = npy_header(text);
    let mut bytes = b"\x93NUMPY\x01\x00".to_vec();
    bytes.extend_from_slice(&(h.len() as u16).to_le_bytes());
    bytes.extend_from_slice(h.as_bytes());
    bytes.extend(vec![0u8; payload]);
    bytes
}

fn npy_err(name: &str, bytes: &[u8]) -> String {
    npy::plan(name, bytes.len() as u64, bytes)
        .expect_err("a bad file")
        .to_string()
}

#[test]
fn npy_headers_are_validated() {
    // A version 2 header, whose length is four bytes wide.
    let h = npy_header("{'descr': '<f4', 'fortran_order': False, 'shape': (2,), }");
    let mut v2 = b"\x93NUMPY\x02\x00".to_vec();
    v2.extend_from_slice(&(h.len() as u32).to_le_bytes());
    v2.extend_from_slice(h.as_bytes());
    v2.extend(vec![0u8; 8]);
    let entry = npy::plan("dir/v2.npy", v2.len() as u64, &v2)
        .expect("the plan")
        .expect("the whole header");
    assert_eq!(entry.rows(), 2);
    assert_eq!(entry.bytes(), Some(8));
    assert_eq!(entry.end(), Some(v2.len() as u64));
    assert_eq!((entry.name.as_str(), entry.dtype), ("v2", DType::F32));
    let plan = splits(&vec![entry]);
    assert_eq!((plan[0].id, plan[0].rows, plan[0].uncompressed_bytes), (0, 2, 8));
    assert!(plan[0].sub_splittable && !plan[0].estimated);

    for (name, bytes, wanted) in [
        ("tiny.npy", b"\x93NUMPY".to_vec(), "NumPy magic"),
        (
            "version.npy",
            {
                let mut b = b"\x93NUMPY\x09\x00".to_vec();
                b.extend_from_slice(&[0u8; 8]);
                b
            },
            "major version",
        ),
        (
            "past-end.npy",
            {
                let mut b = b"\x93NUMPY\x01\x00".to_vec();
                b.extend_from_slice(&40000u16.to_le_bytes());
                b.extend_from_slice(&[0u8; 8]);
                b
            },
            "but the file is",
        ),
        (
            "no-descr.npy",
            npy_v1("{'fortran_order': False, 'shape': (1,), }", 4),
            "no descr",
        ),
        (
            "no-order.npy",
            npy_v1("{'descr': '<f4', 'shape': (1,), }", 4),
            "no fortran_order",
        ),
        (
            "no-shape.npy",
            npy_v1("{'descr': '<f4', 'fortran_order': False, }", 4),
            "no shape",
        ),
        (
            "bad-shape.npy",
            npy_v1("{'descr': '<f4', 'fortran_order': False, 'shape': 5, }", 4),
            "does not parse",
        ),
        (
            "big-endian.npy",
            npy_v1("{'descr': '>f4', 'fortran_order': False, 'shape': (1,), }", 4),
            "little endian",
        ),
        (
            "fortran.npy",
            npy_v1("{'descr': '<f4', 'fortran_order': True, 'shape': (1,), }", 4),
            "Fortran order",
        ),
    ] {
        let error = npy_err(name, &bytes);
        assert!(error.contains(wanted), "{name}: {error}");
    }
    let mut not_text = npy_v1("{'descr': '<f4', 'fortran_order': False, 'shape': (1,), }", 4);
    not_text[12] = 0xff;
    let error = npy_err("bytes.npy", &not_text);
    assert!(error.contains("the header is not UTF-8: invalid utf-8"), "{error}");

    // A version 2 header short of its own length prefix.
    let error = npy_err("v2-tiny.npy", b"\x93NUMPY\x02\x00\x00\x00");
    assert!(error.contains("version 2 header"), "{error}");

    // A prefix that holds only a part of the header leaves the rest to be read.
    assert!(npy::plan("v2.npy", v2.len() as u64, &v2[..40]).expect("the plan").is_none());
    let (start, end) = npy::header_span("v2.npy", v2.len() as u64, &v2[..40]).expect("the span");
    let header = &v2[start as usize..end as usize];
    let entry = npy::entry("v2.npy", v2.len() as u64, end, header).expect("the entry");
    assert_eq!(entry.shape, vec![2]);
}

fn mrb1(dtype: u8, ndim: u8, shape: &[i64], data_offset: u64, payload: usize) -> Vec<u8> {
    let mut bytes = b"MRB1".to_vec();
    bytes.extend_from_slice(&1u16.to_le_bytes());
    bytes.push(dtype);
    bytes.push(ndim);
    for d in shape {
        bytes.extend_from_slice(&d.to_le_bytes());
    }
    bytes.extend_from_slice(&data_offset.to_le_bytes());
    bytes.resize(data_offset as usize, 0);
    bytes.extend(vec![0u8; payload]);
    bytes
}

fn mrb1_plan(name: &str, bytes: &[u8]) -> Result<Entry, MorunaError> {
    amb1_plan(name, bytes.len() as u64, bytes, &vec![(10, DType::F32)])
}

#[test]
fn amb1_headers_are_validated() {
    let good = mrb1(10, 1, &[4], 4096, 16);
    let entry = mrb1_plan("x/weights.mrb1", &good).expect("a good file");
    assert_eq!((entry.name.as_str(), entry.dtype), ("weights", DType::F32));
    assert_eq!((entry.shape.clone(), entry.data_offset), (vec![4], 4096));

    for (name, bytes, wanted) in [
        ("tiny.mrb1", b"MRB1\x01\x00".to_vec(), "shorter than a header"),
        ("dtype.mrb1", mrb1(200, 1, &[4], 4096, 16), "unknown dtype code"),
        ("ndim.mrb1", mrb1(10, 9, &[4], 4096, 16), "ndim 9 exceeds"),
        ("offset.mrb1", mrb1(10, 1, &[4], 4000, 16), "not a multiple of 4096"),
        ("short.mrb1", mrb1(10, 1, &[4], 4096, 4), "short of the 4112 bytes"),
        ("negative.mrb1", mrb1(10, 1, &[-4], 4096, 16), "negative"),
        (
            "huge.mrb1",
            mrb1(10, 2, &[i64::MAX, i64::MAX], 4096, 16),
            "more bytes than a file can hold",
        ),
    ] {
        let error = mrb1_plan(name, &bytes).expect_err("a bad file").to_string();
        assert!(error.contains(wanted), "{name}: {error}");
    }

    // A header whose padding is not what the MRB1 writer would produce is rejected.
    let mut tampered = mrb1(10, 1, &[4], 4096, 16);
    tampered[100] = 0xff;
    let error = mrb1_plan("tampered.mrb1", &tampered).expect_err("tampered").to_string();
    assert!(error.contains("would produce"), "{error}");

    // A file whose header is cut before its padding ends.
    let mut cut = mrb1(10, 1, &[4], 4096, 16);
    cut.truncate(64);
    let error = mrb1_plan("cut.mrb1", &cut).expect_err("cut").to_string();
    assert!(error.contains("short of"), "{error}");
}

#[test]
fn a_written_header_is_read_back() {
    let bytes = mrb1(10, 3, &[2, 0, 7], 8192, 0);
    let entry = mrb1_plan("t.mrb1", &bytes).expect("a file with no elements");
    assert_eq!(entry.shape, vec![2, 0, 7]);
    assert_eq!((entry.data_offset, entry.bytes()), (8192, Some(0)));
}

#[test]
fn formats_are_detected() {
    assert_eq!(detect("a", b"MRB1....").expect("magic"), Format::Amb1);
    assert_eq!(detect("a.bin", b"\x93NUMPY..").expect("magic"), Format::Npy);
    assert_eq!(
        detect("d/model.SafeTensors", b"{}").expect("extension"),
        Format::Safetensors
    );
    let e = detect("d/model.Bin", b"{}").expect_err("unknown").to_string();
    assert!(e.contains("(extension \"bin\", no known magic)"), "{e}");
    let e = detect("d/model", b"").expect_err("unknown").to_string();
    assert!(e.contains("(extension \"\", no known magic)"), "{e}");
    assert_eq!((probe_len(0), probe_len(10), probe_len(1 << 20)), (1, 10, 65536));
    assert!(check_paths(0).expect_err("none").to_string().contains("at least one path"));
    assert!(check_paths(1).is_ok());
    assert!(check_local("s3://b", false).is_err() && check_local("b", true).is_ok());
    assert!(check_found(0).expect_err("none").to_string().contains("no tensor matched"));
    assert!(check_found(2).is_ok());
}

fn tensor(name: &str, dtype: DType, shape: &[i64], data_offset: u64) -> Entry {
    Entry {
        path: "f".to_string(),
        name: name.to_string(),
        dtype,
        shape: shape.to_vec(),
        data_offset,
        file_len: 4096,
    }
}

#[test]
fn tensors_are_selected_and_described() {
    let all = || {
        vec![
            tensor("weight", DType::F32, &[4, 4], 0),
            tensor("bias", DType::F32, &[4], 64),
        ]
    };
    let names = |v: &[&str]| v.iter().map(|s| s.to_string()).collect::<Vec<String>>();
    let kept = select("f", 80, all(), Some(&names(&["bias"])), true).expect("selected");
    assert_eq!(kept.len(), 1);
    assert_eq!(kept[0].name, "bias");
    assert_eq!(select("f", 80, all(), None, true).expect("all").len(), 2);
    let e = select("f", 80, all(), Some(&names(&["bias", "gone"])), true)
        .expect_err("absent")
        .to_string();
    assert!(e.contains("f: no tensor named gone in the file"), "{e}");
    assert!(select("f", 80, all(), Some(&names(&["gone"])), false).expect("none").is_empty());
    let e = select("f", 79, all(), None, true).expect_err("past the end").to_string();
    assert!(e.contains("f: tensor bias claims bytes to 80 but the file is 79 bytes"), "{e}");
    let huge = vec![tensor("h", DType::F64, &[i64::MAX, 4], 0)];
    assert!(select("f", 79, huge, None, true).is_err());

    let s = schema(&all()).expect("one schema");
    assert_eq!((s.dtype, s.shape), (DType::F32, vec![-1, 4]));
    let s = schema(&vec![tensor("x", DType::U8, &[], 0)]).expect("a scalar");
    assert_eq!(s.shape, Vec::<i64>::new());
    let mut mixed = all();
    mixed.push(tensor("ids", DType::I64, &[1], 0));
    let e = schema(&mixed).expect_err("two types").to_string();
    assert!(
        e.contains("tensors weight and ids have different dtypes (F32 and I64)"),
        "{e}"
    );
    assert!(schema(&Vec::new()).is_err());
}

/// A heap that hands addresses out upward.
struct Heap {
    next: usize,
}

impl Heap {
    fn give(&mut self, bytes: usize) -> Option<usize> {
        let at = self.next;
        self.next += bytes.max(1).next_multiple_of(64);
        Some(at)
    }
}

#[test]
fn a_region_survives_until_both_halves_of_a_split_are_released() {
    let mut alloc = FakeAllocator::new();
    let buffer = alloc.allocate(8192, Tier::Host, Some(0x1000)).expect("alloc");
    // Two owners into one region.
    let (head, tail) = (buffer.ptr, buffer.ptr + 4096);

    let r = alloc.release_token(head, 4096, Tier::Host, buffer.token);
    assert_eq!(r, Release::Kept);
    assert!(alloc.contains(tail), "the other half is still there");
    assert_eq!(alloc.in_use(Tier::Host), 4096, "only the head was released");

    let r = alloc.release_token(tail, 4096, Tier::Host, buffer.token);
    assert!(matches!(r, Release::Freed(region) if region.base == 0x1000 && region.len == 8192));
    assert_eq!(alloc.in_use(Tier::Host), 0, "both halves are back");
    assert_eq!(alloc.live_regions(), 0);
}

#[test]
fn a_stale_release_is_refused_rather_than_credited_to_the_next_region() {
    let mut alloc = FakeAllocator::new();
    // Take a region, remember what named it, and give it back.
    let victim = alloc.allocate(4096, Tier::Host, Some(0x4000)).expect("alloc");
    let (base, token) = (victim.ptr, victim.token);
    alloc.release_token(base, 4096, Tier::Host, token);
    assert_eq!(alloc.live_regions(), 0);

    // The heap gives the same address out again, among others.
    let mut heap = Heap { next: 0x4000 };
    let mut heirs = Vec::new();
    for _ in 0..64 {
        let at = heap.give(4096);
        heirs.push(alloc.allocate(4096, Tier::Host, at).expect("alloc"));
    }
    assert_eq!(heirs[0].ptr, base);
    let live_before = alloc.live_regions();
    let in_use_before = alloc.in_use(Tier::Host);

    let r = alloc.release_token(base, 4096, Tier::Host, token);
    assert_eq!(r, Release::Refused(Refusal::Gone));
    assert_eq!(alloc.refused_releases(), 1, "the stale release is counted");
    assert_eq!(
        alloc.live_regions(),
        live_before,
        "and freed nothing: no heir lost its region to it"
    );
    assert_eq!(alloc.in_use(Tier::Host), in_use_before);

    // The same for a release carrying no token at all: nothing says which region it belongs
    // to, and this allocator will not guess.
    assert_eq!(alloc.release(base, 4096, Tier::Host), Release::Refused(Refusal::Untagged));
    assert_eq!(alloc.refused_releases(), 2);
    assert_eq!(alloc.live_regions(), live_before);

    // Releasing one region twice over is refused the second time rather than double-freeing.
    let heir = heirs.remove(0);
    alloc.release_token(heir.ptr, 4096, Tier::Host, heir.token);
    alloc.release_token(heir.ptr, 4096, Tier::Host, heir.token);
    assert_eq!(alloc.refused_releases(), 3);

    for heir in heirs {
        alloc.release_token(heir.ptr, heir.len, heir.tier, heir.token);
    }
    assert_eq!(alloc.live_regions(), 0, "and the rest came back normally");
    assert_eq!(alloc.in_use(Tier::Host), 0);
}

#[test]
fn releases_outside_or_beyond_a_region_are_refused() {
    let mut alloc = FakeAllocator::new();
    let b = alloc.allocate(100, Tier::Host, Some(0x1000)).expect("alloc");
    assert_ne!(b.token, NO_TOKEN);
    let below = alloc.release_token(0xfff, 1, Tier::Host, b.token);
    assert_eq!(below, Release::Refused(Refusal::Outside));
    let past = alloc.release_token(0x1000 + 60, 41, Tier::Host, b.token);
    assert_eq!(past, Release::Refused(Refusal::Outside));
    assert_eq!(alloc.release_token(0x1000, 60, Tier::Host, b.token), Release::Kept);
    let again = alloc.release_token(0x1000, 60, Tier::Host, b.token);
    assert_eq!(again, Release::Refused(Refusal::TooMany));
    assert_eq!(alloc.release_token(0x1000, 0, Tier::Host, 99), Release::Nothing);
    assert_eq!(alloc.refused_releases(), 3);
    assert_eq!(alloc.in_use(Tier::Host), 40);
}

/// The stand-ins that stand in the library: the allocator, the sink, the sampler, the trace.
#[test]
fn ct_t13_fakes_compile() {
    fake_allocator();
    fake_sink();
    fake_sampler();
    fake_trace();
}

fn fake_allocator() {
    let mut heap = Heap { next: 0x10000 };
    let mut alloc = FakeAllocator::new()
        .with_limit(Tier::Host, 8192)
        .pinned(false)
        .page_bytes(4096)
        .fail_next(1);

    // The knob fails exactly one allocation, and the next one succeeds.
    let err = alloc.allocate(16, Tier::Host, heap.give(16)).expect_err("fail_next(1)");
    assert!(matches!(err, MorunaError::Alloc { .. }), "got {err:?}");
    let buffer = alloc.allocate(4096, Tier::Host, heap.give(4096)).expect("a region");
    assert_eq!(buffer.len, 4096);
    assert_eq!(buffer.tier, Tier::Host);
    assert_eq!(alloc.allocations_total(), 1);
    assert_eq!(alloc.in_use(Tier::Host), 4096);
    assert_eq!(alloc.page, 4096);
    assert!(!alloc.is_pinned);
    assert_eq!(alloc.host_tier(), Tier::Host);
    let stats = alloc.stats();
    assert_eq!(stats.host_in_use, 4096);
    assert_eq!(stats.allocations_total, 1);
    assert_eq!(stats.payload_copies_total, 0);
    assert_eq!(stats.boundary_copies_total, 0);

    // The limit refuses what would exceed it, and the accounting comes back on release.
    let err = alloc.allocate(8192, Tier::Host, heap.give(8192)).expect_err("the limit");
    assert!(matches!(err, MorunaError::Alloc { budget: 8192, in_use: 4096, .. }), "got {err:?}");
    assert!(alloc.contains(buffer.ptr) && alloc.contains(buffer.ptr + 4095));
    assert!(!alloc.contains(buffer.ptr + 4096) && !alloc.contains(buffer.ptr - 1));
    assert_eq!(alloc.tier_of(buffer.ptr), Some(Tier::Host));
    alloc.release_token(buffer.ptr, buffer.len, buffer.tier, buffer.token);
    assert_eq!(alloc.in_use(Tier::Host), 0);
    assert!(!alloc.contains(buffer.ptr));

    let mut pinned = FakeAllocator::new().pinned(true);
    assert!(pinned.is_pinned);
    assert_eq!(pinned.host_tier(), Tier::PinnedHost);
    pinned.allocate(8, Tier::PinnedHost, heap.give(8)).expect("a region");
    assert_eq!(pinned.in_use(Tier::PinnedHost), 8);
    let mut devices = FakeAllocator::new();
    let device = devices.allocate(32, Tier::Device(1), heap.give(32)).expect("a region");
    assert_eq!(device.tier, Tier::Device(1));
    assert_eq!(devices.stats().device_in_use[1], 32);
    let seg = SegmentRef { segment: 0, offset: 0, len: 32 };
    assert!(
        FakeAllocator::new().allocate(32, Tier::Disk(seg), heap.give(32)).is_err(),
        "a tier with no bytes"
    );

    // An empty heap, an alignment that is no power of two and a length past any heap.
    assert!(FakeAllocator::new().allocate(32, Tier::Host, None).is_err());
    let mut odd = FakeAllocator::new().page_bytes(3000);
    assert!(odd.allocate(4000, Tier::Host, Some(4096)).is_err());
    assert!(odd.allocate(100, Tier::Host, Some(4096)).is_ok());
    let mut big = FakeAllocator::new();
    assert!(big.request(usize::MAX / 2, Tier::Host).is_err());
    assert_eq!(big.request(0, Tier::Host).expect("a byte").len, 1);
    assert_eq!(big.request(5000, Tier::Host).expect("a page").align, 4096);
    big.note_payload_copy(5);
    big.note_boundary_copy(7);
    assert_eq!((big.payload_copies(), big.boundary_copies()), (5, 7));
}

fn fake_sink() {
    let mut sink = FakeSink::new().commit_every(2).resumable(true).requires_order(true);
    assert!(sink.is_ordered());
    sink.open();
    assert_eq!(sink.open_calls(), 1);

    // A resumable sink checkpoints before its first write.
    assert_eq!(sink.checkpoint(), Some(vec![0; 8]));
    assert_eq!(sink.committed_seq(), None);

    for seq in 0..4u64 {
        sink.write(seq, 8, 64).expect("the write");
    }
    assert_eq!(sink.written(), &vec![0, 1, 2, 3]);
    assert_eq!(sink.committed_seq(), Some(3), "commit_every(2) commits in blocks");
    sink.skip(4);
    assert_eq!(sink.skipped(), &vec![4]);
    assert_eq!(sink.committed_seq(), Some(3), "half a block is not committed");
    let summary = sink.finish();
    assert_eq!(sink.finish_calls(), 1);
    assert_eq!(summary.rows, 4 * 8);
    assert_eq!(summary.bytes, 4 * 64);
    assert_eq!(summary.files, vec!["fake-sink-0".to_string()]);
    let state = sink.checkpoint().expect("resumable");
    assert_eq!((state.len(), state[0], state[16]), (40, 4, 1));

    // resume discards output above the watermark and is counted.
    sink.resume(vec![1, 2, 3], Some(1)).expect("resumed");
    assert_eq!(sink.resume_calls(), 1);
    assert_eq!(sink.written(), &vec![0, 1]);
    assert_eq!(sink.committed_seq(), Some(1));
    sink.shutdown();
    assert_eq!(sink.shutdown_calls(), 1);

    // fail_at fails that sequence number, and a sink that is not resumable says so.
    let mut failing = FakeSink::new().fail_at(7);
    let err = failing.write(7, 1, 1).expect_err("fail_at");
    assert!(matches!(err, MorunaError::Sink(_)), "got {err:?}");
    assert_eq!(err.to_string(), "sink: FakeSink::fail_at(7)");
    let mut plain = FakeSink::new().resumable(false);
    assert!(plain.checkpoint().is_none());
    let err = plain.resume(Vec::new(), None).expect_err("not resumable");
    assert_eq!(err.to_string(), "resume: FakeSink is not resumable");
    assert!(!plain.is_ordered());

    // Out of order, the watermark waits for what is missing.
    let mut late = FakeSink::new();
    late.write(2, 1, 1).expect("the write");
    assert_eq!(late.committed_seq(), None);
    late.write(0, 1, 1).expect("the write");
    assert_eq!(late.committed_seq(), Some(0));
    late.skip(1);
    assert_eq!(late.committed_seq(), Some(2));
}

fn fake_sampler() {
    let first = Sample { anon_bytes: 1, ..Sample::default() };
    let second = Sample { anon_bytes: 2, peak_anon_bytes: 9, ..Sample::default() };
    let mut sampler = FakeSampler::new().scripted(vec![first, second]);
    assert_eq!(sampler.sample(5).anon_bytes, 1);
    assert_eq!(sampler.sample(6).anon_bytes, 2);
    assert_eq!(sampler.sample(7).anon_bytes, 2, "the last sample repeats");
    assert_eq!(sampler.sample(8).peak_anon_bytes, 9);
    assert_eq!(sampler.samples_taken(), 4);
    sampler.reset_peak();
    assert_eq!(sampler.peak_resets(), 1);

    let mut live = FakeSampler::new().live();
    assert_eq!(live.sample(77).at_ns, 77, "a live sample is stamped with the clock");
    assert_eq!(live.samples_taken(), 1);
    live.reset_peak();
    assert_eq!(live.peak_resets(), 1);
    assert_eq!(FakeSampler::new().sample(1).anon_bytes, 0, "no script is all zeroes");
}

fn record(seq: u64, stage: u16) -> TraceRecord {
    TraceRecord {
        seq,
        stage,
        worker: 0,
        instance: u16::MAX,
        t_start_ns: 0,
        t_end_ns: 1,
        rows_in: 1,
        bytes_in: 8,
        rows_out: 1,
        bytes_out: 8,
        tier_in: 0,
        tier_out: 0,
        feat_mean_string_len: 0,
        feat_null_ratio: 0,
        feat_column_bytes: vec![8],
        knob_morsel_target: 16,
        knob_active_workers: 1,
        knob_read_ahead: 2,
        mem_anon_before: 0,
        mem_anon_peak: 0,
        dev_mem_peak: 0,
        cpu_time_us: 1,
        throttled_delta_us: 0,
        q_bytes_before: vec![0; 5],
        q_bytes_after: vec![0; 5],
        staging_bytes_delta: 0,
        placement_miss_wait_us: 0,
        state_bytes: 0,
        sizer: 0,
        outcome: 0,
        error: None,
    }
}

fn fake_trace() {
    let mut trace = FakeTrace::new().capacity(2);
    for seq in 0..3u64 {
        trace.record(record(seq, 1));
    }
    trace.record(record(9, 2));
    let kept = trace.records();
    assert_eq!(kept.len(), 2, "capacity(2) keeps the last two");
    assert_eq!(kept[0].seq, 2);
    assert_eq!(kept[1].seq, 9);
    assert_eq!(trace.tail(2, 4).len(), 1, "the tail of one stage");
    assert_eq!(trace.tail(1, 1)[0].seq, 2);
    trace.flush();
    assert_eq!(trace.flush_calls(), 1);
    assert_eq!(trace.finish().len(), 2);
    assert_eq!(trace.finish_calls(), 1);
}

fn view_of(memory: Vec<Chunk>) -> TraceView {
    TraceView {
        memory,
        overflow_chunks: 0,
        rows: 0,
        overflow_lost: false,
        late: 0,
        finished: false,
    }
}

/// The window over what is in memory.
#[test]
fn tr_t8_tail() {
    assert!(view_of(Vec::new()).tail(1, 8).is_empty(), "an empty trace has no tail");
    let chunk = |from: u64, to: u64| Chunk {
        rows: (from..to).flat_map(|s| [Some(record(s, 1)), Some(record(s, 2))]).collect(),
    };
    let view = view_of(vec![chunk(0, 40), chunk(40, 90), chunk(90, 100)]);
    let got = view.tail(1, 32);
    assert_eq!(got.len(), 32, "the partial chunk is part of the window");
    assert!(got.iter().all(|r| r.stage == 1), "the window is filtered by stage");
    let seqs: Vec<u64> = got.iter().map(|r| r.seq).collect();
    assert_eq!(seqs, (68..100).collect::<Vec<u64>>(), "the newest n, oldest first");
    assert_eq!(view.tail(1, 10_000_000).len(), 100);
    assert_eq!(view.tail(1, 0).len(), 0);
    assert!(view.tail(9, 4).is_empty(), "a stage with no records");

    // A row that does not decode is passed over.
    let broken = view_of(vec![Chunk { rows: vec![Some(record(1, 1)), None, Some(record(3, 1))] }]);
    assert_eq!(broken.tail(1, 5).len(), 2);
    assert_eq!(records(&broken.memory).iter().map(|r| r.seq).collect::<Vec<u64>>(), vec![1, 3]);
}

#[test]
fn chunks_come_from_the_file_and_then_from_memory() {
    let mut view = view_of(vec![
        Chunk { rows: vec![Some(record(5, 1))] },
        Chunk { rows: vec![Some(record(6, 1))] },
    ]);
    view.overflow_chunks = 2;
    view.rows = 4;
    view.late = 3;
    view.overflow_lost = true;
    assert_eq!((view.len(), view.is_empty(), view.late_records()), (4, false, 3));
    assert!(view.overflow_failed());

    let mut b = view.batches(true, true);
    assert!(b.reads_file());
    assert!(matches!(b.next(true), Next::Read));
    assert!(matches!(b.next(true), Next::Read));
    assert!(!b.reads_file(), "what lies beyond may be half written");
    assert!(matches!(b.next(false), Next::Memory(c) if c.rows[0].as_ref().unwrap().seq == 5));
    assert!(matches!(b.next(false), Next::Memory(c) if c.rows[0].as_ref().unwrap().seq == 6));
    assert!(matches!(b.next(false), Next::End));

    // A truncated overflow file ends its own part only.
    let mut b = view.batches(false, true);
    assert!(matches!(b.next(false), Next::Memory(_)));
    assert!(!b.reads_file());
    let mut b = view.batches(false, false);
    assert!(!b.reads_file() && matches!(b.next(false), Next::Memory(_)));

    // The final file holds everything.
    view.finished = true;
    let mut b = view.batches(true, true);
    assert!(b.reads_file() && matches!(b.next(true), Next::Read));
    assert!(matches!(b.next(false), Next::End));
    assert!(matches!(b.next(false), Next::End), "memory is not given twice");
    assert!(!view.batches(false, false).reads_file());
}

#[test]
fn bytes_use_binary_units() {
    assert_eq!(bytes_binary(0), "0 B");
    assert_eq!(bytes_binary(1), "1 B");
    assert_eq!(bytes_binary(1023), "1023 B");
    assert_eq!(bytes_binary(1024), "1.00 KiB");
    assert_eq!(bytes_binary(1536), "1.50 KiB");
    assert_eq!(bytes_binary(1024 * 1024), "1.00 MiB");
    assert_eq!(bytes_binary(214_748_364), "205 MiB");
    assert_eq!(bytes_binary(1024 * 1024 * 1024), "1.00 GiB");
    assert_eq!(bytes_binary(1024u64.pow(4)), "1.00 TiB");
    assert_eq!(bytes_binary(1024u64.pow(5)), "1.00 PiB");
    // Beyond the largest unit the figure grows rather than the unit.
    assert_eq!(bytes_binary(2 * 1024u64.pow(6)), "2048 PiB");
}

/// The whole-number arithmetic agrees with float formatting, with the decimals chosen so that
/// three figures stand after rounding.
#[test]
fn figures_agree_with_floats() {
    let by_float = |n: u64| {
        let units = ["B", "KiB", "MiB", "GiB", "TiB", "PiB"];
        let mut v = n as f64;
        let mut unit = 0;
        while v >= 1024.0 && unit + 1 < units.len() {
            v /= 1024.0;
            unit += 1;
        }
        let two = format!("{v:.2}");
        let one = format!("{v:.1}");
        if unit == 0 {
            format!("{n} B")
        } else if two.len() == 4 {
            format!("{two} {}", units[unit])
        } else if one.len() == 4 {
            format!("{one} {}", units[unit])
        } else {
            format!("{v:.0} {}", units[unit])
        }
    };
    let mut x: u64 = 0x9e37_79b9_7f4a_7c15;
    for i in 0..20_000u64 {
        x ^= x << 13;
        x ^= x >> 7;
        x ^= x << 17;
        let n = x >> (i % 64);
        assert_eq!(bytes_binary(n), by_float(n), "{n}");
    }
    for n in [
        1023 * 1024 + 512,
        10 * 1024 - 1,
        100 * 1024 - 1,
        1024 * 1024 - 1,
        (1 << 53) - 1,
        (1 << 53) + 1,
        (1 << 54) + 3,
        u64::MAX,
        u64::MAX - 1024,
        1024 + 5,
        1024 + 128,
        10 * 1024 + 51,
        12 * 1024 + 256,
        101 * 1024 + 512,
        102 * 1024 + 512,
    ] {
        assert_eq!(bytes_binary(n), by_float(n), "{n}");
    }
}

#[test]
fn three_figures_stand_after_rounding() {
    assert_eq!(bytes_binary(10_234), "9.99 KiB");
    assert_eq!(bytes_binary(10_239), "10.0 KiB");
    assert_eq!(bytes_binary(102_348), "99.9 KiB");
    assert_eq!(bytes_binary(102_399), "100 KiB");
}

#[test]
fn only_gaps_under_the_limit_are_merged() {
    let spans = [(0u64, 4096u64), (1_052_672, 1_056_768)];
    assert_eq!(spans[1].0 - spans[0].1, COALESCE_GAP);
    assert_eq!(
        coalesce(&spans, 4096, 2_000_000),
        vec![(0, 4096), (1_052_672, 1_056_768)]
    );
    let spans = [(0u64, 4097u64), (1_052_672, 1_056_768)];
    assert_eq!(coalesce(&spans, 4096, 2_000_000), vec![(0, 1_056_768)]);
}

#[test]
fn an_extension_decides_before_a_magic() {
    assert_eq!(
        detect("w.safetensors", b"MRB1").expect("extension"),
        Format::Safetensors
    );
    assert_eq!(
        detect("w.safetensors", b"\x93NUMPY").expect("extension"),
        Format::Safetensors
    );
    assert_eq!(detect("w.npy", b"MRB1").expect("magic"), Format::Amb1);
}

#[test]
fn repeated_numbers_do_not_hold_the_watermark() {
    let mut sink = FakeSink::new();
    sink.skip(0);
    sink.skip(0);
    sink.skip(1);
    assert_eq!(sink.committed_seq(), Some(1));
    let mut sink = FakeSink::new().commit_every(2);
    for seq in [3, 1, 1, 0, 3] {
        sink.write(seq, 1, 1).expect("the write");
    }
    assert_eq!(sink.committed_seq(), Some(1));
    sink.skip(2);
    assert_eq!(sink.committed_seq(), Some(3));
    assert_eq!((sink.written(), sink.skipped()), (&vec![3, 1, 1, 0, 3], &vec![2]));
}

#[test]
fn live_samples_move() {
    let mut live = FakeSampler::new().live();
    assert_eq!(live.sample(5).anon_bytes, 1);
    assert_eq!(live.sample(5).anon_bytes, 2);
    assert_eq!(live.samples_taken(), 2);
}

#[test]
fn fakes_have_defaults() {
    assert_eq!(FakeSink::default().committed_seq(), None);
    assert_eq!(FakeSampler::default().samples_taken(), 0);
    assert!(FakeTrace::default().records().is_empty());
    assert_eq!(FakeAllocator::default().live_regions(), 0);
}

#[test]
fn refused_releases_may_name_any_device() {
    let mut alloc = FakeAllocator::new();
    let far = Tier::Device(u8::MAX);
    assert_eq!(alloc.release(0, 0, far), Release::Nothing);
    assert_eq!(alloc.release(0, 8, far), Release::Refused(Refusal::Untagged));
    assert_eq!(alloc.release_token(0, 8, far, 77), Release::Refused(Refusal::Gone));
    assert_eq!(alloc.refused_releases(), 2);
}

#[test]
fn rates_are_byte_counts_per_second() {
    assert_eq!(rate_binary(None), "0 B/s");
    assert_eq!(rate_binary(Some(1024)), "1.00 KiB/s");
    assert_eq!(rate_binary(Some(214_748_364)), "205 MiB/s");
}

fn report(stages: usize) -> RunReport {
    RunReport {
        run_id: "r1".to_string(),
        exit: ExitReason::Completed,
        resumed: false,
        wall_s: "10.0".to_string(),
        limits: Limits {
            memory_ceiling: 1 << 30,
            memory_kill: Some(1 << 31),
            cpu_quota: "4.00".to_string(),
            source: "cgroup".to_string(),
            devices: 1,
        },
        peak_anon_bytes: 1 << 29,
        peak_fraction_of_ceiling: "50.0%".to_string(),
        worker_busy_fraction: "75.0%".to_string(),
        cpu_throttled_fraction: "0.00%".to_string(),
        source_bytes_per_s: Some(214_748_364),
        io_paths: IoPaths {
            direct_io: true,
            io_uring: false,
            gds: false,
            pinned: true,
            rdma: false,
        },
        staging_engaged: false,
        staging_bytes_written: 0,
        staging_bandwidth: None,
        source_bandwidth: Some(214_748_364),
        stages: (0..stages)
            .map(|i| StageReport {
                stage: i as u16 + 1,
                morsels: 3,
                rows_per_s: "100".to_string(),
                bytes_per_s: Some(1024),
                amplification_p50: "2.00".to_string(),
                amplification_p95: "2.50".to_string(),
                placement_miss_wait_s: "0.00".to_string(),
                errors: 0,
                skipped: 0,
                state_bytes_max: 0,
                state_growth: "flat".to_string(),
            })
            .collect(),
        sizer_used: "rule".to_string(),
        sizer_fallback_at: None,
        gil: Vec::new(),
        gil_serialised: false,
        manifest: None,
        overflow_failed: false,
        late_records: 0,
        bottleneck_timeline: Vec::new(),
        notes: Vec::new(),
    }
}

#[test]
fn tr_t10_no_staging_reports_zero() {
    let shown = report(1).to_string();
    assert!(shown.contains("staging: not engaged"), "{shown}");
    assert!(shown.contains("staging bandwidth 0 B/s beside source bandwidth 205 MiB/s"));
}

#[test]
fn tr_t10_staging_vs_source_bandwidth() {
    let mut r = report(1);
    r.staging_engaged = true;
    r.staging_bytes_written = 1_073_741_820;
    r.staging_bandwidth = Some(214_748_364);
    let shown = r.to_string();
    let line = shown.lines().find(|l| l.starts_with("staging:")).expect("the staging line");
    assert!(line.contains("staging bandwidth 205 MiB/s"), "{line}");
    assert!(line.contains("source bandwidth 205 MiB/s"), "{line}");
}

#[test]
fn tr_t10_layout_stays_inside_forty_lines() {
    let mut r = report(30);
    for s in &mut r.stages {
        s.state_bytes_max = 3000;
    }
    r.stages[0].errors = 2;
    r.exit = ExitReason::Terminated {
        diagnostic: "budget: morsel 3 stage 7 footprint 9 exceeds budget 8".to_string(),
    };
    r.resumed = true;
    r.manifest = Some("/tmp/moruna/run/manifest".to_string());
    r.gil = vec![(1, "Serialised".to_string()), (2, "FreeThreaded".to_string())];
    r.gil_serialised = true;
    r.sizer_used = "learned".to_string();
    r.sizer_fallback_at = Some(1_234);
    r.notes = (0..13).map(|i| format!("note number {i}")).collect();
    r.bottleneck_timeline = (0..20).map(|i| (format!("{i}.0"), format!("class {i}"))).collect();
    r.limits.memory_kill = None;
    r.limits.devices = 0;
    r.late_records = 1;

    let shown = r.to_string();
    let lines: Vec<&str> = shown.lines().collect();
    assert_eq!(lines.len(), 39, "every optional line is there:\n{shown}");
    assert_eq!(r.lines().len(), 39);
    assert!(shown.contains("(resumed)"), "{shown}");
    assert!(shown.contains("terminated: budget:"), "{shown}");
    assert!(shown.contains("manifest: /tmp/moruna/run/manifest"), "{shown}");
    assert!(shown.contains("kill none"), "{shown}");
    assert!(shown.contains("sizer: learned"), "{shown}");
    assert!(shown.contains("fell back to the rule sizer at morsel 1234"), "{shown}");
    assert!(shown.contains("serialised on at least one stage"), "{shown}");
    assert!(shown.contains("(1:Serialised 2:FreeThreaded)"), "{shown}");
    assert!(shown.contains("bottlenecks: 0.0 s class 0, 1.0 s class 1"), "{shown}");
    assert!(shown.contains("7.0 s class 7\n"), "{shown}");
    assert!(shown.contains("stages: 10 more not shown"), "{shown}");
    assert!(shown.contains("note: 7 more not shown"), "{shown}");
    assert!(shown.contains(", 2 errors, 0 skipped, state 2.93 KiB (growth flat)"), "{shown}");
    assert!(shown.contains("trace: overflow_failed false, late records 1"), "{shown}");

    // A report with no devices and no optional lines is shorter and still complete.
    let plain = report(1).to_string();
    assert!(plain.lines().count() <= 40);
    assert!(!plain.contains("manifest:"));
    assert!(plain.contains("devices 1"), "{plain}");
    assert!(plain.starts_with("moruna run r1 completed in 10.0 s\n"), "{plain}");
    assert!(plain.contains("limits: ceiling 1.00 GiB, kill 2.00 GiB, cpu 4.00, source cgroup"));
    assert!(plain.contains("memory: peak 512 MiB of ceiling 1.00 GiB (50.0% of ceiling)"));
    assert!(plain.contains("paths direct_io true io_uring false gds false pinned true rdma false"));
    assert!(plain.contains(
        "stage 1: 3 morsels, 100 rows/s, 1.00 KiB/s, amplification p50 2.00 p95 2.50, miss 0.00 s\n"
    ));
    let none = report(0).to_string();
    assert!(none.contains("stages: no kernel stages"), "{none}");
    let mut free = report(0);
    free.gil = vec![(4, "FreeThreaded".to_string())];
    assert!(free.to_string().contains("python: free threaded (4:FreeThreaded)"));
}

/// A byte rate as the report takes it: none where it is not a positive number.
fn rate(v: f64) -> Option<u64> {
    (v.is_finite() && v > 0.0).then_some(v as u64)
}

#[test]
fn rates_use_binary_units() {
    assert_eq!(rate_binary(rate(0.0)), "0 B/s");
    assert_eq!(rate_binary(rate(-1.0)), "0 B/s");
    assert_eq!(rate_binary(rate(f64::NAN)), "0 B/s");
    assert_eq!(rate_binary(rate(f64::INFINITY)), "0 B/s");
    assert_eq!(rate_binary(rate(1024.0)), "1.00 KiB/s");
    assert_eq!(rate_binary(rate(214_748_364.8)), "205 MiB/s");
}
