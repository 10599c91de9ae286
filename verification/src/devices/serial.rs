//! The serial console's memory: a bounded log of what the guest printed, and whether it
//! printed a kernel panic.
//!
//! The log keeps the last [`LOG_BYTES`] bytes so that, when the guest kernel panics, the
//! monitor can write the console's tail to stderr and exit 6. A panic is recognised by the line
//! the kernel prints before anything else, [`PANIC_MARKER`]. There is no console input: the
//! guest's only inbound channel is vsock.

use vstd::prelude::*;
use vstd::string::*;
use vstd::utf8::*;

verus! {

/// Bytes of console output kept for the panic report: 64 KiB holds a full oops with its
/// backtrace and the lines before it.
pub const LOG_BYTES: usize = 65536;

/// The line prefix Linux prints when it panics.
pub const PANIC_MARKER: &'static str = "Kernel panic - not syncing";

/// A console line longer than this is split for panic detection (a panic line is short).
pub const LINE_MAX: usize = 4096;

/// The x86_64 COM1 port base.
pub const COM1_PORT: u64 = 0x3f8;

/// The COM1 IRQ line.
pub const COM1_IRQ: u32 = 4;

/// The 8250's register window: eight byte-wide registers.
pub const WINDOW_BYTES: u64 = 8;

/// The bytes of the panic marker.
pub open spec fn marker() -> Seq<u8> {
    PANIC_MARKER.spec_bytes()
}

/// Whether `needle` occurs in `s` at `i`.
pub open spec fn occurs_at(s: Seq<u8>, needle: Seq<u8>, i: int) -> bool {
    0 <= i && i + needle.len() <= s.len() && s.subrange(i, i + needle.len()) == needle
}

/// Whether `line` holds the panic marker.
pub open spec fn is_panic(line: Seq<u8>) -> bool {
    exists|i: int| #[trigger] occurs_at(line, marker(), i)
}

/// What the console remembers.
#[verifier::ext_equal]
pub struct ConsoleView {
    /// The last bytes printed.
    pub tail: Seq<u8>,
    /// The line being printed, or the last part of it.
    pub line: Seq<u8>,
    /// A panic line went past.
    pub panicked: bool,
}

/// The last `n` of `s`.
pub open spec fn last_of(s: Seq<u8>, n: int) -> Seq<u8> {
    if s.len() > n {
        s.subrange(s.len() - n, s.len() as int)
    } else {
        s
    }
}

impl ConsoleView {
    /// What one more byte leaves, before the line being printed is looked at: a newline or a
    /// full line ends the line, which is then looked at.
    pub open spec fn byte(self, b: u8) -> ConsoleView {
        if b == 10 {
            ConsoleView {
                line: Seq::empty(),
                panicked: self.panicked || is_panic(self.line),
                ..self
            }
        } else if self.line.len() >= LINE_MAX {
            ConsoleView { line: seq![b], panicked: self.panicked || is_panic(self.line), ..self }
        } else {
            ConsoleView { line: self.line.push(b), ..self }
        }
    }

    /// What some more bytes leave, before the line being printed is looked at.
    pub open spec fn bytes(self, b: Seq<u8>) -> ConsoleView
        decreases b.len(),
    {
        if b.len() == 0 {
            self
        } else {
            self.bytes(b.drop_last()).byte(b.last())
        }
    }

    /// What printing `b` leaves. A panic line is recognised before its newline arrives: the
    /// guest may die mid-line.
    pub open spec fn recorded(self, b: Seq<u8>) -> ConsoleView {
        let scanned = self.bytes(b);
        ConsoleView {
            tail: last_of(self.tail + b, LOG_BYTES as int),
            line: scanned.line,
            panicked: scanned.panicked || is_panic(scanned.line),
        }
    }
}

/// The console's memory: a bounded tail and whether a panic line went past.
pub struct ConsoleLog {
    tail: Vec<u8>,
    line: Vec<u8>,
    panicked: bool,
}

impl View for ConsoleLog {
    type V = ConsoleView;

    closed spec fn view(&self) -> ConsoleView {
        ConsoleView { tail: self.tail@, line: self.line@, panicked: self.panicked }
    }
}

impl Default for ConsoleLog {
    fn default() -> (l: Self)
        ensures
            l@ == silent(),
    {
        ConsoleLog::new()
    }
}

impl ConsoleLog {
    /// A new, empty log.
    pub fn new() -> (l: Self)
        ensures
            l@ == silent(),
    {
        let l = ConsoleLog { tail: Vec::new(), line: Vec::new(), panicked: false };
        assert(l@ =~= silent());
        l
    }

    /// Record bytes the guest wrote.
    pub fn record(&mut self, bytes: &[u8])
        ensures
            final(self)@ == old(self)@.recorded(bytes@),
            final(self)@.tail.len() <= LOG_BYTES,
    {
        let ghost before = self@;
        self.tail.extend_from_slice(bytes);
        assert(self.tail@ =~= before.tail + bytes@);
        if self.tail.len() > LOG_BYTES {
            let excess: usize = self.tail.len() - LOG_BYTES;
            let kept = self.tail.split_off(excess);
            self.tail = kept;
        }
        assert(self.tail@ =~= last_of(before.tail + bytes@, LOG_BYTES as int));
        let ghost kept_tail = self.tail@;
        let n = bytes.len();
        let mut i: usize = 0;
        assert(bytes@.subrange(0, 0) =~= Seq::<u8>::empty());
        while i < n
            invariant
                i <= n,
                n == bytes@.len(),
                self.tail@ == kept_tail,
                self.line@ == before.bytes(bytes@.subrange(0, i as int)).line,
                self.panicked == before.bytes(bytes@.subrange(0, i as int)).panicked,
            decreases n - i,
        {
            let b = bytes[i];
            assert(bytes@.subrange(0, i + 1).drop_last() =~= bytes@.subrange(0, i as int));
            if b == 10 {
                self.check();
                self.line = Vec::new();
                assert(self.line@ =~= Seq::<u8>::empty());
            } else if self.line.len() >= LINE_MAX {
                self.check();
                self.line = Vec::new();
                self.line.push(b);
                assert(self.line@ =~= seq![b]);
            } else {
                self.line.push(b);
            }
            i += 1;
        }
        assert(bytes@.subrange(0, n as int) =~= bytes@);
        self.check();
    }

    /// Look for the panic marker in the line.
    fn check(&mut self)
        ensures
            final(self).tail == old(self).tail,
            final(self).line == old(self).line,
            final(self).panicked == (old(self).panicked || is_panic(old(self).line@)),
    {
        let needle = PANIC_MARKER.as_bytes();
        assert(needle@ == marker());
        let found = holds(self.line.as_slice(), needle);
        assert(found == is_panic(self.line@));
        if found {
            self.panicked = true;
        }
    }

    /// True once the guest printed a kernel panic.
    pub fn panicked(&self) -> (r: bool)
        ensures
            r == self@.panicked,
    {
        self.panicked
    }

    /// The last [`LOG_BYTES`] bytes of console output.
    pub fn tail(&self) -> (t: Vec<u8>)
        ensures
            t@ == self@.tail,
    {
        self.tail.clone()
    }
}

/// Whether `needle` occurs in `s`.
fn holds(s: &[u8], needle: &[u8]) -> (r: bool)
    ensures
        r == exists|i: int| #[trigger] occurs_at(s@, needle@, i),
{
    let n = s.len();
    let m = needle.len();
    if m > n {
        return false;
    }
    let mut i: usize = 0;
    while i <= n - m
        invariant
            n == s@.len(),
            m == needle@.len(),
            m <= n,
            i <= n - m + 1,
            forall|j: int| 0 <= j < i ==> !#[trigger] occurs_at(s@, needle@, j),
        decreases n - i,
    {
        let mut k: usize = 0;
        while k < m && s[i + k] == needle[k]
            invariant
                n == s@.len(),
                m == needle@.len(),
                i + m <= n,
                k <= m,
                forall|j: int| 0 <= j < k ==> s@[i + j] == #[trigger] needle@[j],
            decreases m - k,
        {
            k += 1;
        }
        if k == m {
            assert(s@.subrange(i as int, i + m) =~= needle@);
            assert(occurs_at(s@, needle@, i as int));
            return true;
        }
        assert(!occurs_at(s@, needle@, i as int)) by {
            if occurs_at(s@, needle@, i as int) {
                assert(s@.subrange(i as int, i + m)[k as int] == needle@[k as int]);
            }
        }
        if i == n - m {
            return false;
        }
        i += 1;
    }
    false
}

/// The UART register an access reaches: one byte, inside the window. Any other access reads as
/// zeros and is not written.
pub fn uart_register(offset: u64, len: usize) -> (r: Option<u8>)
    ensures
        r == (if len == 1 && offset < WINDOW_BYTES {
            Some(offset as u8)
        } else {
            None
        }),
{
    if len == 1 && offset < WINDOW_BYTES {
        Some(offset as u8)
    } else {
        None
    }
}

proof fn lemma_bytes_concat(v: ConsoleView, a: Seq<u8>, b: Seq<u8>)
    ensures
        v.bytes(a + b) == v.bytes(a).bytes(b),
    decreases b.len(),
{
    if b.len() == 0 {
        assert(a + b =~= a);
    } else {
        assert((a + b).drop_last() =~= a + b.drop_last());
        assert((a + b).last() == b.last());
        lemma_bytes_concat(v, a, b.drop_last());
    }
}

proof fn lemma_bytes_panicked(v: ConsoleView, p: bool, t: Seq<u8>, b: Seq<u8>)
    ensures
        ({
            let w = ConsoleView { panicked: p, tail: t, ..v };
            &&& w.bytes(b).line == v.bytes(b).line
            &&& (p == v.panicked) ==> w.bytes(b).panicked == v.bytes(b).panicked
            &&& p ==> w.bytes(b).panicked
            &&& v.bytes(b).panicked && v.panicked == false && !p ==> w.bytes(b).panicked
        }),
    decreases b.len(),
{
    if b.len() > 0 {
        lemma_bytes_panicked(v, p, t, b.drop_last());
    }
}

/// A line that holds the marker is recognised, however it goes on.
proof fn lemma_panic_line_is_seen(v: ConsoleView, b: Seq<u8>)
    requires
        is_panic(v.line),
    ensures
        v.bytes(b).panicked || is_panic(v.bytes(b).line),
    decreases b.len(),
{
    if b.len() > 0 {
        lemma_panic_line_is_seen(v, b.drop_last());
        let w = v.bytes(b.drop_last());
        if is_panic(w.line) && b.last() != 10 && w.line.len() < LINE_MAX {
            let i = choose|i: int| #[trigger] occurs_at(w.line, marker(), i);
            assert(w.line.push(b.last()).subrange(i, i + marker().len()) =~= w.line.subrange(
                i,
                i + marker().len(),
            ));
            assert(occurs_at(w.line.push(b.last()), marker(), i));
        }
    }
}

/// The marker is not empty and lies within one line.
proof fn lemma_marker()
    ensures
        marker().len() == 26,
        forall|i: int| 0 <= i < marker().len() ==> #[trigger] marker()[i] != 10,
{
    reveal_strlit("Kernel panic - not syncing");
    assert(is_ascii_chars(PANIC_MARKER@));
    is_ascii_chars_encode_utf8(PANIC_MARKER@);
    assert forall|i: int| 0 <= i < marker().len() implies #[trigger] marker()[i] != 10 by {
        assert(PANIC_MARKER@[i] as u8 == encode_utf8(PANIC_MARKER@)[i]);
    }
}

/// What a console that has printed nothing remembers.
pub open spec fn silent() -> ConsoleView {
    ConsoleView { tail: Seq::empty(), line: Seq::empty(), panicked: false }
}

/// Whether no line of `out` is longer than [`LINE_MAX`].
pub open spec fn short_lines(out: Seq<u8>) -> bool {
    forall|a: int, b: int|
        #![trigger out.subrange(a, b)]
        0 <= a <= b <= out.len() && !out.subrange(a, b).contains(10u8) ==> b - a <= LINE_MAX
}

/// An occurrence in a part of `s` is one in `s`.
proof fn lemma_occurs_in_whole(s: Seq<u8>, from: int, i: int)
    requires
        0 <= from <= s.len(),
        occurs_at(s.subrange(from, s.len() as int), marker(), i),
    ensures
        occurs_at(s, marker(), from + i),
{
    let part = s.subrange(from, s.len() as int);
    assert(s.subrange(from + i, from + i + marker().len()) =~= part.subrange(
        i,
        i + marker().len(),
    ));
}

/// The line being printed is the end of the output, and a panic line was seen only where the
/// marker was printed; while lines are short, wherever it was.
proof fn lemma_scanned(out: Seq<u8>)
    ensures
        ({
            let w = silent().bytes(out);
            let from = out.len() - w.line.len();
            &&& 0 <= from
            &&& w.line == out.subrange(from, out.len() as int)
            &&& !w.line.contains(10u8)
            &&& w.panicked || is_panic(w.line) ==> is_panic(out)
            &&& short_lines(out) ==> (from > 0 ==> out[from - 1] == 10) && (is_panic(out)
                ==> w.panicked || is_panic(w.line))
        }),
    decreases out.len(),
{
    lemma_marker();
    let m = marker().len() as int;
    if out.len() == 0 {
        assert(out.subrange(0, 0) =~= silent().line);
        if is_panic(out) {
            let i = choose|i: int| #[trigger] occurs_at(out, marker(), i);
        }
    } else {
        let init = out.drop_last();
        let b = out.last();
        lemma_scanned(init);
        let v = silent().bytes(init);
        let w = v.byte(b);
        let n = out.len() as int;
        let from = init.len() - v.line.len();
        // What was printed before stays printed.
        if is_panic(init) {
            let i = choose|i: int| #[trigger] occurs_at(init, marker(), i);
            assert(out.subrange(i, i + m) =~= init.subrange(i, i + m));
            assert(occurs_at(out, marker(), i));
        }
        if short_lines(out) {
            assert forall|a: int, e: int|
                #![trigger init.subrange(a, e)]
                0 <= a <= e <= init.len() && !init.subrange(a, e).contains(10u8) implies e - a
                <= LINE_MAX by {
                assert(init.subrange(a, e) =~= out.subrange(a, e));
            }
            assert(short_lines(init));
        }
        if b == 10 {
            assert(w.line =~= out.subrange(n, n));
            assert(!is_panic(w.line));
            if is_panic(out) {
                let i = choose|i: int| #[trigger] occurs_at(out, marker(), i);
                if i + m == n {
                    assert(out.subrange(i, i + m)[m - 1] == marker()[m - 1]);
                }
                assert(out.subrange(i, i + m) =~= init.subrange(i, i + m));
                assert(occurs_at(init, marker(), i));
            }
        } else {
            let line = v.line.push(b);
            assert(line =~= out.subrange(from, n));
            assert(!line.contains(10u8)) by {
                if line.contains(10u8) {
                    let k = choose|k: int| 0 <= k < line.len() && line[k] == 10u8;
                    if k < v.line.len() {
                        assert(v.line[k] == 10u8);
                        assert(v.line.contains(10u8));
                    }
                }
            }
            if short_lines(out) {
                assert(!out.subrange(from, n).contains(10u8));
                assert(v.line.len() < LINE_MAX);
            }
            if v.line.len() >= LINE_MAX {
                assert(w.line =~= out.subrange(n - 1, n));
                assert(!w.line.contains(10u8));
            }
            let start = n - w.line.len();
            if is_panic(w.line) {
                let i = choose|i: int| #[trigger] occurs_at(w.line, marker(), i);
                lemma_occurs_in_whole(out, start, i);
            }
            if short_lines(out) && is_panic(out) {
                let i = choose|i: int| #[trigger] occurs_at(out, marker(), i);
                if i + m < n {
                    assert(out.subrange(i, i + m) =~= init.subrange(i, i + m));
                    assert(occurs_at(init, marker(), i));
                    if is_panic(v.line) {
                        let k = choose|k: int| #[trigger] occurs_at(v.line, marker(), k);
                        assert(w.line.subrange(k, k + m) =~= v.line.subrange(k, k + m));
                        assert(occurs_at(w.line, marker(), k));
                    }
                } else {
                    if i < from {
                        assert(out[from - 1] == init[from - 1]);
                        assert(out.subrange(i, i + m)[from - 1 - i] == marker()[from - 1 - i]);
                    }
                    assert(w.line.subrange(i - from, i - from + m) =~= out.subrange(i, i + m));
                    assert(occurs_at(w.line, marker(), i - from));
                }
            }
        }
    }
}

/// A panic is reported only where the panic marker stands in the output, and while no line is
/// longer than [`LINE_MAX`], exactly where it does. In how many pieces the output came does not
/// matter, by [`law_recording_is_seamless`].
pub proof fn law_a_panic_is_reported_where_it_was_printed(out: Seq<u8>)
    ensures
        silent().recorded(out).panicked ==> is_panic(out),
        short_lines(out) ==> (silent().recorded(out).panicked <==> is_panic(out)),
{
    lemma_scanned(out);
}

/// How the guest's output is cut into writes does not matter: recording two pieces is
/// recording them as one.
pub proof fn law_recording_is_seamless(v: ConsoleView, a: Seq<u8>, b: Seq<u8>)
    ensures
        v.recorded(a).recorded(b) == v.recorded(a + b),
{
    lemma_bytes_concat(v, a, b);
    let mid = v.bytes(a);
    let first = v.recorded(a);
    assert(first.line == mid.line);
    assert(first == ConsoleView { panicked: first.panicked, tail: first.tail, ..mid });
    lemma_bytes_panicked(mid, first.panicked, first.tail, b);
    if is_panic(mid.line) {
        lemma_panic_line_is_seen(mid, b);
    }
    if mid.panicked {
        lemma_bytes_panicked(mid, true, mid.tail, b);
        assert(mid == ConsoleView { panicked: true, tail: mid.tail, ..mid });
    }
    assert(v.tail + (a + b) =~= v.tail + a + b);
    assert(v.recorded(a).recorded(b).tail =~= v.recorded(a + b).tail);
}

/// Once a panic was seen it stays seen.
pub proof fn law_panic_is_latched(v: ConsoleView, b: Seq<u8>)
    requires
        v.panicked,
    ensures
        v.recorded(b).panicked,
{
    lemma_bytes_panicked(v, true, v.tail, b);
    assert(v == ConsoleView { panicked: true, tail: v.tail, ..v });
}

} // verus!
