//! The run report's layout: at most 40 lines, bytes in binary units and three significant
//! figures. Figures that are no whole numbers come as texts; every byte count is put into units
//! here.

use crate::text::{dec, dec_text, texts};
use vstd::prelude::*;
use vstd::string::*;

verus! {

/// The most stage lines the layout prints before it summarises the rest.
pub const MAX_STAGE_LINES: usize = 20;

/// The most note lines, for the same reason.
pub const MAX_NOTE_LINES: usize = 6;

/// The most bottlenecks on their line.
pub const MAX_BOTTLENECKS: usize = 8;

/// The most lines of a report.
pub const MAX_LINES: usize = 40;

/// `a / b` rounded to the nearest whole number, a tie to the even one.
pub open spec fn half_even(a: nat, b: nat) -> nat {
    let q = a / b;
    let r = a % b;
    if 2 * r < b || (2 * r == b && q % 2 == 0) {
        q
    } else {
        q + 1
    }
}

/// How far apart the 64-bit floats are around `n`, from `g` on.
pub open spec fn grain(n: nat, g: nat) -> nat
    decreases n - g,
{
    if g == 0 || n < 0x20_0000_0000_0000 * g {
        g
    } else {
        grain(n, 2 * g)
    }
}

/// The 64-bit float nearest to `n`, which is a whole number.
pub open spec fn as_double(n: nat) -> nat {
    let g = grain(n, 1);
    half_even(n, g) * g
}

/// The unit of a value of `m` bytes, counted from bytes up, and the bytes of the unit: the
/// largest that the value reaches, from the `k`th on.
pub open spec fn unit_of(m: nat, k: nat, scale: nat) -> (nat, nat)
    decreases 5 - k,
{
    if k < 5 && m >= 1024 * scale {
        unit_of(m, k + 1, 1024 * scale)
    } else {
        (k, scale)
    }
}

/// The name of a unit.
pub open spec fn unit_name(k: nat) -> Seq<char> {
    if k == 0 {
        "B"@
    } else if k == 1 {
        "KiB"@
    } else if k == 2 {
        "MiB"@
    } else if k == 3 {
        "GiB"@
    } else if k == 4 {
        "TiB"@
    } else {
        "PiB"@
    }
}

/// `m / scale`, which is at least one, to three significant figures: with as many decimals, up to
/// two, as leave three figures after rounding. A value of four figures or more has no decimals.
pub open spec fn figure(m: nat, scale: nat) -> Seq<char> {
    let hundredths = half_even(100 * m, scale);
    let tenths = half_even(10 * m, scale);
    if hundredths < 1000 {
        dec(hundredths / 100) + "."@ + dec(hundredths / 10 % 10) + dec(hundredths % 10)
    } else if tenths < 1000 {
        dec(tenths / 10) + "."@ + dec(tenths % 10)
    } else {
        dec(half_even(m, scale))
    }
}

/// Bytes in binary units, to three significant figures. The value is that of the nearest 64-bit
/// float; beyond the largest unit the figure grows.
pub open spec fn binary(n: u64) -> Seq<char> {
    let m = as_double(n as nat);
    let (k, scale) = unit_of(m, 0, 1);
    if k == 0 {
        dec(n as nat) + " B"@
    } else {
        figure(m, scale) + " "@ + unit_name(k)
    }
}

fn half_even_of(a: u128, b: u128) -> (r: u128)
    requires
        0 < b <= 0x100_0000_0000_0000_0000,
        a <= 0x100_0000_0000_0000_0000,
    ensures
        r == half_even(a as nat, b as nat),
        r <= a / b + 1,
{
    let q = a / b;
    let r = a % b;
    proof {
        vstd::arithmetic::div_mod::lemma_mod_bound(a as int, b as int);
        vstd::arithmetic::div_mod::lemma_div_is_ordered_by_denominator(a as int, 1, b as int);
    }
    if 2 * r < b || (2 * r == b && q % 2 == 0) {
        q
    } else {
        q + 1
    }
}

/// The float nearest to a number of 64 bits.
fn nearest_double(n: u64) -> (m: u128)
    ensures
        m == as_double(n as nat),
        m <= 0x1_0000_0000_0000_0000,
{
    let mut g: u128 = 1;
    while n as u128 >= 0x20_0000_0000_0000 * g
        invariant
            1 <= g <= 2048,
            grain(n as nat, 1) == grain(n as nat, g as nat),
            g == 1 || n as u128 >= 0x10_0000_0000_0000 * g,
            g == 1 || g == 2 || g == 4 || g == 8 || g == 16 || g == 32 || g == 64 || g == 128 || g
                == 256 || g == 512 || g == 1024 || g == 2048,
        decreases 4096 - g,
    {
        assert(g <= 1024);
        g = 2 * g;
    }
    let q = half_even_of(n as u128, g);
    assert(q * g <= 0x1_0000_0000_0000_0000) by {
        lemma_nearest(n as int, g as int, q as int);
    }
    q * g
}

proof fn lemma_nearest(n: int, g: int, q: int)
    requires
        0 <= n < 0x1_0000_0000_0000_0000,
        g == 1 || g == 2 || g == 4 || g == 8 || g == 16 || g == 32 || g == 64 || g == 128 || g
            == 256 || g == 512 || g == 1024 || g == 2048,
        q == half_even(n as nat, g as nat),
    ensures
        0 <= q * g <= 0x1_0000_0000_0000_0000,
{
    if g == 1 {
    } else if g == 2 {
    } else if g == 4 {
    } else if g == 8 {
    } else if g == 16 {
    } else if g == 32 {
    } else if g == 64 {
    } else if g == 128 {
    } else if g == 256 {
    } else if g == 512 {
    } else if g == 1024 {
    } else {
    }
}

fn unit_text(k: u64) -> (s: &'static str)
    ensures
        s@ == unit_name(k as nat),
{
    if k == 0 {
        "B"
    } else if k == 1 {
        "KiB"
    } else if k == 2 {
        "MiB"
    } else if k == 3 {
        "GiB"
    } else if k == 4 {
        "TiB"
    } else {
        "PiB"
    }
}

proof fn lemma_quotient(a: int, b: int)
    requires
        0 <= a,
        b >= 1024,
    ensures
        0 <= a / b <= a / 1024,
{
    vstd::arithmetic::div_mod::lemma_div_is_ordered_by_denominator(a, 1024, b);
    vstd::arithmetic::div_mod::lemma_div_pos_is_pos(a, b);
}

fn figure_text(m: u128, scale: u128) -> (s: String)
    requires
        1024 <= scale <= 0x4_0000_0000_0000,
        m <= 0x1_0000_0000_0000_0000,
    ensures
        s@ == figure(m as nat, scale as nat),
{
    proof {
        lemma_quotient(m as int, scale as int);
        lemma_quotient(10 * m as int, scale as int);
        lemma_quotient(100 * m as int, scale as int);
    }
    let hundredths = half_even_of(100 * m, scale) as u64;
    if hundredths < 1000 {
        let mut s = dec_text(hundredths / 100);
        s.append(".");
        s.append(&dec_text(hundredths / 10 % 10));
        s.append(&dec_text(hundredths % 10));
        return s;
    }
    let tenths = half_even_of(10 * m, scale) as u64;
    if tenths < 1000 {
        let mut s = dec_text(tenths / 10);
        s.append(".");
        s.append(&dec_text(tenths % 10));
        return s;
    }
    dec_text(half_even_of(m, scale) as u64)
}

/// Bytes in binary units, to three significant figures.
pub fn bytes_binary(n: u64) -> (s: String)
    ensures
        s@ == binary(n),
{
    let m = nearest_double(n);
    let mut k: u64 = 0;
    let mut scale: u128 = 1;
    while k < 5 && m >= 1024 * scale
        invariant
            k <= 5,
            k == 0 ==> scale == 1,
            k == 1 ==> scale == 1024,
            k == 2 ==> scale == 1048576,
            k == 3 ==> scale == 1073741824,
            k == 4 ==> scale == 1099511627776,
            k == 5 ==> scale == 1125899906842624,
            unit_of(m as nat, 0, 1) == unit_of(m as nat, k as nat, scale as nat),
        decreases 5 - k,
    {
        k += 1;
        scale = 1024 * scale;
    }
    if k == 0 {
        let mut s = dec_text(n);
        s.append(" B");
        s
    } else {
        let mut s = figure_text(m, scale);
        s.append(" ");
        s.append(unit_text(k));
        s
    }
}

/// A byte rate in binary units; none where there is no positive rate.
pub open spec fn rate(v: Option<u64>) -> Seq<char> {
    match v {
        Some(n) => binary(n) + "/s"@,
        None => "0 B/s"@,
    }
}

/// A byte rate in binary units per second; none where there is no positive rate.
pub fn rate_binary(v: Option<u64>) -> (s: String)
    ensures
        s@ == rate(v),
{
    match v {
        Some(n) => {
            let mut s = bytes_binary(n);
            s.append("/s");
            s
        },
        None => "0 B/s".to_owned(),
    }
}

/// Why a run ended.
#[derive(Debug)]
pub enum ExitReason {
    /// It did all its work.
    Completed,
    /// It was cancelled.
    Cancelled,
    /// It was ended.
    Terminated {
        /// Why.
        diagnostic: String,
    },
}

/// What limited a run.
#[derive(Debug)]
pub struct Limits {
    /// The most memory it may use.
    pub memory_ceiling: u64,
    /// The memory at which it would be killed.
    pub memory_kill: Option<u64>,
    /// The CPUs it may use, as a figure.
    pub cpu_quota: String,
    /// Where the limits come from.
    pub source: String,
    /// How many devices it has.
    pub devices: usize,
}

/// Which ways of input and output a run has.
#[derive(Clone, Copy, Debug, PartialEq, Eq, Structural)]
pub struct IoPaths {
    pub direct_io: bool,
    pub io_uring: bool,
    pub gds: bool,
    pub pinned: bool,
    pub rdma: bool,
}

/// What one stage did.
#[derive(Debug)]
pub struct StageReport {
    /// The stage.
    pub stage: u16,
    /// Morsels.
    pub morsels: u64,
    /// Rows per second, as a figure.
    pub rows_per_s: String,
    /// Bytes per second.
    pub bytes_per_s: Option<u64>,
    /// The median amplification, as a figure.
    pub amplification_p50: String,
    /// The 95th percentile of the amplification, as a figure.
    pub amplification_p95: String,
    /// The seconds waited for placement, as a figure.
    pub placement_miss_wait_s: String,
    /// Errors.
    pub errors: u64,
    /// Morsels skipped.
    pub skipped: u64,
    /// The most bytes of state.
    pub state_bytes_max: u64,
    /// How the state grew.
    pub state_growth: String,
}

/// The report of a run. A figure that is no whole number is held as its text.
#[derive(Debug)]
pub struct RunReport {
    pub run_id: String,
    pub exit: ExitReason,
    pub resumed: bool,
    /// The seconds the run took.
    pub wall_s: String,
    pub limits: Limits,
    pub peak_anon_bytes: u64,
    /// The peak as a percentage.
    pub peak_fraction_of_ceiling: String,
    /// How busy the workers were, as a percentage.
    pub worker_busy_fraction: String,
    /// How long the run was throttled, as a percentage.
    pub cpu_throttled_fraction: String,
    pub source_bytes_per_s: Option<u64>,
    pub io_paths: IoPaths,
    pub staging_engaged: bool,
    pub staging_bytes_written: u64,
    pub staging_bandwidth: Option<u64>,
    pub source_bandwidth: Option<u64>,
    pub stages: Vec<StageReport>,
    pub sizer_used: String,
    pub sizer_fallback_at: Option<u64>,
    /// The state of the interpreter lock in each stage that has one.
    pub gil: Vec<(u16, String)>,
    pub gil_serialised: bool,
    pub manifest: Option<String>,
    pub overflow_failed: bool,
    pub late_records: u64,
    /// When a bottleneck began, in seconds, and which.
    pub bottleneck_timeline: Vec<(String, String)>,
    pub notes: Vec<String>,
}

/// A truth value as text.
pub open spec fn truth(b: bool) -> Seq<char> {
    if b {
        "true"@
    } else {
        "false"@
    }
}

fn truth_text(b: bool) -> (s: &'static str)
    ensures
        s@ == truth(b),
{
    if b {
        "true"
    } else {
        "false"
    }
}

/// Why a run ended, as text.
pub open spec fn exit_words(e: ExitReason) -> Seq<char> {
    match e {
        ExitReason::Completed => "completed"@,
        ExitReason::Cancelled => "cancelled"@,
        ExitReason::Terminated { diagnostic } => "terminated: "@ + diagnostic@,
    }
}

/// The first lines.
pub open spec fn head_lines(r: RunReport) -> Seq<Seq<char>> {
    seq![
        "moruna run "@ + r.run_id@ + " "@ + exit_words(r.exit) + if r.resumed {
            " (resumed)"@
        } else {
            ""@
        } + " in "@ + r.wall_s@ + " s"@,
        "limits: ceiling "@ + binary(r.limits.memory_ceiling) + ", kill "@
            + match r.limits.memory_kill {
            Some(n) => binary(n),
            None => "none"@,
        } + ", cpu "@ + r.limits.cpu_quota@ + ", source "@ + r.limits.source@
            + if r.limits.devices == 0 {
            ""@
        } else {
            ", devices "@ + dec(r.limits.devices as nat)
        },
        "memory: peak "@ + binary(r.peak_anon_bytes) + " of ceiling "@ + binary(
            r.limits.memory_ceiling,
        ) + " ("@ + r.peak_fraction_of_ceiling@ + " of ceiling)"@,
        "cpu: workers busy "@ + r.worker_busy_fraction@ + ", throttled "@
            + r.cpu_throttled_fraction@,
        "io: source "@ + rate(r.source_bytes_per_s) + ", paths direct_io "@ + truth(
            r.io_paths.direct_io,
        ) + " io_uring "@ + truth(r.io_paths.io_uring) + " gds "@ + truth(r.io_paths.gds)
            + " pinned "@ + truth(r.io_paths.pinned) + " rdma "@ + truth(r.io_paths.rdma),
        "staging: "@ + if r.staging_engaged {
            "engaged"@
        } else {
            "not engaged"@
        } + ", written "@ + binary(r.staging_bytes_written) + ", staging bandwidth "@ + rate(
            r.staging_bandwidth,
        ) + " beside source bandwidth "@ + rate(r.source_bandwidth),
    ]
}

/// The line of a stage.
pub open spec fn stage_line(s: StageReport) -> Seq<char> {
    "stage "@ + dec(s.stage as nat) + ": "@ + dec(s.morsels as nat) + " morsels, "@ + s.rows_per_s@
        + " rows/s, "@ + rate(s.bytes_per_s) + ", amplification p50 "@ + s.amplification_p50@
        + " p95 "@ + s.amplification_p95@ + ", miss "@ + s.placement_miss_wait_s@ + " s"@
        + if s.errors > 0 || s.skipped > 0 {
        ", "@ + dec(s.errors as nat) + " errors, "@ + dec(s.skipped as nat) + " skipped"@
    } else {
        ""@
    } + if s.state_bytes_max > 0 {
        ", state "@ + binary(s.state_bytes_max) + " (growth "@ + s.state_growth@ + ")"@
    } else {
        ""@
    }
}

/// What is left of `n` after `most`, where anything is.
pub open spec fn rest_line(what: Seq<char>, n: nat, most: nat) -> Seq<Seq<char>> {
    if n > most {
        seq![what + ": "@ + dec((n - most) as nat) + " more not shown"@]
    } else {
        Seq::empty()
    }
}

/// At most `most` of some.
pub open spec fn at_most<T>(s: Seq<T>, most: nat) -> Seq<T> {
    if s.len() > most {
        s.take(most as int)
    } else {
        s
    }
}

/// The lines of the stages.
pub open spec fn stage_lines(r: RunReport) -> Seq<Seq<char>> {
    if r.stages@.len() == 0 {
        seq!["stages: no kernel stages"@]
    } else {
        at_most(r.stages@, MAX_STAGE_LINES as nat).map_values(|s: StageReport| stage_line(s))
            + rest_line("stages"@, r.stages@.len(), MAX_STAGE_LINES as nat)
    }
}

/// Texts with `gap` between them.
pub open spec fn spread(v: Seq<Seq<char>>, gap: Seq<char>) -> Seq<char>
    decreases v.len(),
{
    if v.len() == 0 {
        Seq::empty()
    } else if v.len() == 1 {
        v[0]
    } else {
        spread(v.drop_last(), gap) + gap + v.last()
    }
}

/// The line of the sizer.
pub open spec fn sizer_line(r: RunReport) -> Seq<char> {
    "sizer: "@ + r.sizer_used@ + match r.sizer_fallback_at {
        Some(seq) => ", fell back to the rule sizer at morsel "@ + dec(seq as nat),
        None => ""@,
    }
}

/// The line of the interpreter lock, where a stage has one.
pub open spec fn gil_lines(r: RunReport) -> Seq<Seq<char>> {
    if r.gil@.len() == 0 {
        Seq::empty()
    } else {
        seq![
            "python: "@ + if r.gil_serialised {
                "serialised on at least one stage"@
            } else {
                "free threaded"@
            } + " ("@ + spread(
                r.gil@.map_values(|g: (u16, String)| dec(g.0 as nat) + ":"@ + g.1@),
                " "@,
            ) + ")"@,
        ]
    }
}

/// The line of the manifest, where there is one.
pub open spec fn manifest_lines(r: RunReport) -> Seq<Seq<char>> {
    match r.manifest {
        Some(m) => seq!["manifest: "@ + m@],
        None => Seq::empty(),
    }
}

/// The line of the trace, where something of it was lost.
pub open spec fn trace_lines(r: RunReport) -> Seq<Seq<char>> {
    if r.overflow_failed || r.late_records > 0 {
        seq![
            "trace: overflow_failed "@ + truth(r.overflow_failed) + ", late records "@ + dec(
                r.late_records as nat,
            ),
        ]
    } else {
        Seq::empty()
    }
}

/// The line of the bottlenecks, where there were any.
pub open spec fn bottleneck_lines(r: RunReport) -> Seq<Seq<char>> {
    if r.bottleneck_timeline@.len() == 0 {
        Seq::empty()
    } else {
        seq![
            "bottlenecks: "@ + spread(
                at_most(r.bottleneck_timeline@, MAX_BOTTLENECKS as nat).map_values(
                    |b: (String, String)| b.0@ + " s "@ + b.1@,
                ),
                ", "@,
            ),
        ]
    }
}

/// The lines of the notes.
pub open spec fn note_lines(r: RunReport) -> Seq<Seq<char>> {
    at_most(r.notes@, MAX_NOTE_LINES as nat).map_values(|n: String| "note: "@ + n@) + rest_line(
        "note"@,
        r.notes@.len(),
        MAX_NOTE_LINES as nat,
    )
}

/// The lines of a report.
pub open spec fn layout(r: RunReport) -> Seq<Seq<char>> {
    head_lines(r) + stage_lines(r) + seq![sizer_line(r)] + gil_lines(r) + manifest_lines(r)
        + trace_lines(r) + bottleneck_lines(r) + note_lines(r)
}

/// A report has at most 40 lines, however many stages and notes the run has.
pub proof fn law_a_report_is_short(r: RunReport)
    ensures
        layout(r).len() <= MAX_LINES,
{
}

/// Add a line.
fn add_line(out: &mut Vec<String>, line: String)
    ensures
        texts(final(out)@) == texts(old(out)@).push(line@),
{
    out.push(line);
    assert(texts(out@) =~= texts(old(out)@).push(line@));
}

fn exit_text(e: &ExitReason) -> (s: String)
    ensures
        s@ == exit_words(*e),
{
    match e {
        ExitReason::Completed => "completed".to_owned(),
        ExitReason::Cancelled => "cancelled".to_owned(),
        ExitReason::Terminated { diagnostic } => {
            let mut s = "terminated: ".to_owned();
            s.append(diagnostic);
            s
        },
    }
}

fn run_text(r: &RunReport) -> (s: String)
    ensures
        s@ == head_lines(*r)[0],
{
    let mut s = "moruna run ".to_owned();
    s.append(&r.run_id);
    s.append(" ");
    s.append(&exit_text(&r.exit));
    s.append(
        if r.resumed {
            " (resumed)"
        } else {
            ""
        },
    );
    s.append(" in ");
    s.append(&r.wall_s);
    s.append(" s");
    s
}

fn limits_text(r: &RunReport) -> (s: String)
    ensures
        s@ == head_lines(*r)[1],
{
    let mut s = "limits: ceiling ".to_owned();
    s.append(&bytes_binary(r.limits.memory_ceiling));
    s.append(", kill ");
    match r.limits.memory_kill {
        Some(n) => {
            s.append(&bytes_binary(n));
        },
        None => {
            s.append("none");
        },
    }
    s.append(", cpu ");
    s.append(&r.limits.cpu_quota);
    s.append(", source ");
    s.append(&r.limits.source);
    if r.limits.devices == 0 {
        s.append("");
    } else {
        let mut d = ", devices ".to_owned();
        d.append(&dec_text(r.limits.devices as u64));
        s.append(&d);
    }
    s
}

fn memory_text(r: &RunReport) -> (s: String)
    ensures
        s@ == head_lines(*r)[2],
{
    let mut s = "memory: peak ".to_owned();
    s.append(&bytes_binary(r.peak_anon_bytes));
    s.append(" of ceiling ");
    s.append(&bytes_binary(r.limits.memory_ceiling));
    s.append(" (");
    s.append(&r.peak_fraction_of_ceiling);
    s.append(" of ceiling)");
    s
}

fn cpu_text(r: &RunReport) -> (s: String)
    ensures
        s@ == head_lines(*r)[3],
{
    let mut s = "cpu: workers busy ".to_owned();
    s.append(&r.worker_busy_fraction);
    s.append(", throttled ");
    s.append(&r.cpu_throttled_fraction);
    s
}

fn io_text(r: &RunReport) -> (s: String)
    ensures
        s@ == head_lines(*r)[4],
{
    let mut s = "io: source ".to_owned();
    s.append(&rate_binary(r.source_bytes_per_s));
    s.append(", paths direct_io ");
    s.append(truth_text(r.io_paths.direct_io));
    s.append(" io_uring ");
    s.append(truth_text(r.io_paths.io_uring));
    s.append(" gds ");
    s.append(truth_text(r.io_paths.gds));
    s.append(" pinned ");
    s.append(truth_text(r.io_paths.pinned));
    s.append(" rdma ");
    s.append(truth_text(r.io_paths.rdma));
    s
}

fn staging_text(r: &RunReport) -> (s: String)
    ensures
        s@ == head_lines(*r)[5],
{
    let mut s = "staging: ".to_owned();
    s.append(
        if r.staging_engaged {
            "engaged"
        } else {
            "not engaged"
        },
    );
    s.append(", written ");
    s.append(&bytes_binary(r.staging_bytes_written));
    s.append(", staging bandwidth ");
    s.append(&rate_binary(r.staging_bandwidth));
    s.append(" beside source bandwidth ");
    s.append(&rate_binary(r.source_bandwidth));
    s
}

fn stage_text(g: &StageReport) -> (s: String)
    ensures
        s@ == stage_line(*g),
{
    let mut s = "stage ".to_owned();
    s.append(&dec_text(g.stage as u64));
    s.append(": ");
    s.append(&dec_text(g.morsels));
    s.append(" morsels, ");
    s.append(&g.rows_per_s);
    s.append(" rows/s, ");
    s.append(&rate_binary(g.bytes_per_s));
    s.append(", amplification p50 ");
    s.append(&g.amplification_p50);
    s.append(" p95 ");
    s.append(&g.amplification_p95);
    s.append(", miss ");
    s.append(&g.placement_miss_wait_s);
    s.append(" s");
    if g.errors > 0 || g.skipped > 0 {
        let mut e = ", ".to_owned();
        e.append(&dec_text(g.errors));
        e.append(" errors, ");
        e.append(&dec_text(g.skipped));
        e.append(" skipped");
        s.append(&e);
    } else {
        s.append("");
    }
    if g.state_bytes_max > 0 {
        let mut e = ", state ".to_owned();
        e.append(&bytes_binary(g.state_bytes_max));
        e.append(" (growth ");
        e.append(&g.state_growth);
        e.append(")");
        s.append(&e);
    } else {
        s.append("");
    }
    s
}

/// Add what is left of `n` after `most`, where anything is.
fn add_rest(out: &mut Vec<String>, what: &str, n: usize, most: usize)
    ensures
        texts(final(out)@) == texts(old(out)@) + rest_line(what@, n as nat, most as nat),
{
    if n > most {
        let mut s = what.to_owned();
        s.append(": ");
        s.append(&dec_text((n - most) as u64));
        s.append(" more not shown");
        add_line(out, s);
        assert(texts(out@) =~= texts(old(out)@) + rest_line(what@, n as nat, most as nat));
    } else {
        assert(texts(out@) =~= texts(old(out)@) + rest_line(what@, n as nat, most as nat));
    }
}

fn add_stages(out: &mut Vec<String>, r: &RunReport)
    ensures
        texts(final(out)@) == texts(old(out)@) + stage_lines(*r),
{
    if r.stages.len() == 0 {
        add_line(out, "stages: no kernel stages".to_owned());
        assert(texts(out@) =~= texts(old(out)@) + stage_lines(*r));
        return;
    }
    let n = if r.stages.len() > MAX_STAGE_LINES {
        MAX_STAGE_LINES
    } else {
        r.stages.len()
    };
    let ghost shown = at_most(r.stages@, MAX_STAGE_LINES as nat).map_values(
        |s: StageReport| stage_line(s),
    );
    let mut i: usize = 0;
    assert(texts(out@) =~= texts(old(out)@) + shown.take(0));
    while i < n
        invariant
            i <= n <= r.stages@.len(),
            n == shown.len(),
            shown == at_most(r.stages@, MAX_STAGE_LINES as nat).map_values(
                |s: StageReport| stage_line(s),
            ),
            texts(out@) == texts(old(out)@) + shown.take(i as int),
        decreases n - i,
    {
        add_line(out, stage_text(&r.stages[i]));
        assert(shown[i as int] == stage_line(r.stages@[i as int]));
        assert(texts(out@) =~= texts(old(out)@) + shown.take(i + 1));
        i += 1;
    }
    assert(shown.take(i as int) =~= shown);
    add_rest(out, "stages", r.stages.len(), MAX_STAGE_LINES);
    assert(texts(out@) =~= texts(old(out)@) + stage_lines(*r));
}

/// Texts with `gap` between them.
fn spread_text(v: &Vec<String>, gap: &str) -> (s: String)
    ensures
        s@ == spread(texts(v@), gap@),
{
    let mut s = String::new();
    let mut i: usize = 0;
    assert(s@ =~= spread(texts(v@).take(0), gap@));
    while i < v.len()
        invariant
            i <= v@.len(),
            s@ == spread(texts(v@).take(i as int), gap@),
        decreases v@.len() - i,
    {
        assert(texts(v@).take(i + 1).drop_last() =~= texts(v@).take(i as int));
        if i > 0 {
            s.append(gap);
        }
        let ghost before = s@;
        s.append(&v[i]);
        assert(i == 0 ==> s@ =~= v@[0]@);
        i += 1;
    }
    assert(texts(v@).take(i as int) =~= texts(v@));
    s
}

fn sizer_text(r: &RunReport) -> (s: String)
    ensures
        s@ == sizer_line(*r),
{
    let mut s = "sizer: ".to_owned();
    s.append(&r.sizer_used);
    match r.sizer_fallback_at {
        Some(seq) => {
            let mut t = ", fell back to the rule sizer at morsel ".to_owned();
            t.append(&dec_text(seq));
            s.append(&t);
        },
        None => {
            s.append("");
        },
    }
    s
}

fn add_gil(out: &mut Vec<String>, r: &RunReport)
    ensures
        texts(final(out)@) == texts(old(out)@) + gil_lines(*r),
{
    if r.gil.len() == 0 {
        assert(texts(out@) =~= texts(old(out)@) + gil_lines(*r));
        return;
    }
    let ghost all = r.gil@.map_values(|g: (u16, String)| dec(g.0 as nat) + ":"@ + g.1@);
    let mut words: Vec<String> = Vec::new();
    let mut i: usize = 0;
    while i < r.gil.len()
        invariant
            i <= r.gil@.len(),
            all == r.gil@.map_values(|g: (u16, String)| dec(g.0 as nat) + ":"@ + g.1@),
            texts(words@) == all.take(i as int),
        decreases r.gil@.len() - i,
    {
        let mut w = dec_text(r.gil[i].0 as u64);
        w.append(":");
        w.append(&r.gil[i].1);
        add_line(&mut words, w);
        assert(texts(words@) =~= all.take(i + 1));
        i += 1;
    }
    assert(all.take(i as int) =~= all);
    let mut s = "python: ".to_owned();
    s.append(
        if r.gil_serialised {
            "serialised on at least one stage"
        } else {
            "free threaded"
        },
    );
    s.append(" (");
    s.append(&spread_text(&words, " "));
    s.append(")");
    add_line(out, s);
    assert(texts(out@) =~= texts(old(out)@) + gil_lines(*r));
}

fn add_manifest(out: &mut Vec<String>, r: &RunReport)
    ensures
        texts(final(out)@) == texts(old(out)@) + manifest_lines(*r),
{
    if let Some(m) = &r.manifest {
        let mut s = "manifest: ".to_owned();
        s.append(m);
        add_line(out, s);
    }
    assert(texts(out@) =~= texts(old(out)@) + manifest_lines(*r));
}

fn add_trace(out: &mut Vec<String>, r: &RunReport)
    ensures
        texts(final(out)@) == texts(old(out)@) + trace_lines(*r),
{
    if r.overflow_failed || r.late_records > 0 {
        let mut s = "trace: overflow_failed ".to_owned();
        s.append(truth_text(r.overflow_failed));
        s.append(", late records ");
        s.append(&dec_text(r.late_records));
        add_line(out, s);
    }
    assert(texts(out@) =~= texts(old(out)@) + trace_lines(*r));
}

fn add_bottlenecks(out: &mut Vec<String>, r: &RunReport)
    ensures
        texts(final(out)@) == texts(old(out)@) + bottleneck_lines(*r),
{
    if r.bottleneck_timeline.len() == 0 {
        assert(texts(out@) =~= texts(old(out)@) + bottleneck_lines(*r));
        return;
    }
    let n = if r.bottleneck_timeline.len() > MAX_BOTTLENECKS {
        MAX_BOTTLENECKS
    } else {
        r.bottleneck_timeline.len()
    };
    let ghost all = at_most(r.bottleneck_timeline@, MAX_BOTTLENECKS as nat).map_values(
        |b: (String, String)| b.0@ + " s "@ + b.1@,
    );
    let mut words: Vec<String> = Vec::new();
    let mut i: usize = 0;
    while i < n
        invariant
            i <= n <= r.bottleneck_timeline@.len(),
            n == all.len(),
            all == at_most(r.bottleneck_timeline@, MAX_BOTTLENECKS as nat).map_values(
                |b: (String, String)| b.0@ + " s "@ + b.1@,
            ),
            texts(words@) == all.take(i as int),
        decreases n - i,
    {
        let mut w = r.bottleneck_timeline[i].0.clone();
        w.append(" s ");
        w.append(&r.bottleneck_timeline[i].1);
        add_line(&mut words, w);
        assert(texts(words@) =~= all.take(i + 1));
        i += 1;
    }
    assert(all.take(i as int) =~= all);
    let mut s = "bottlenecks: ".to_owned();
    s.append(&spread_text(&words, ", "));
    add_line(out, s);
    assert(texts(out@) =~= texts(old(out)@) + bottleneck_lines(*r));
}

fn add_notes(out: &mut Vec<String>, r: &RunReport)
    ensures
        texts(final(out)@) == texts(old(out)@) + note_lines(*r),
{
    let n = if r.notes.len() > MAX_NOTE_LINES {
        MAX_NOTE_LINES
    } else {
        r.notes.len()
    };
    let ghost shown = at_most(r.notes@, MAX_NOTE_LINES as nat).map_values(
        |n: String| "note: "@ + n@,
    );
    let mut i: usize = 0;
    assert(texts(out@) =~= texts(old(out)@) + shown.take(0));
    while i < n
        invariant
            i <= n <= r.notes@.len(),
            n == shown.len(),
            shown == at_most(r.notes@, MAX_NOTE_LINES as nat).map_values(
                |n: String| "note: "@ + n@,
            ),
            texts(out@) == texts(old(out)@) + shown.take(i as int),
        decreases n - i,
    {
        let mut s = "note: ".to_owned();
        s.append(&r.notes[i]);
        add_line(out, s);
        assert(texts(out@) =~= texts(old(out)@) + shown.take(i + 1));
        i += 1;
    }
    assert(shown.take(i as int) =~= shown);
    add_rest(out, "note", r.notes.len(), MAX_NOTE_LINES);
    assert(texts(out@) =~= texts(old(out)@) + note_lines(*r));
}

/// Lines with a line feed after each.
pub open spec fn printed(lines: Seq<Seq<char>>) -> Seq<char>
    decreases lines.len(),
{
    if lines.len() == 0 {
        Seq::empty()
    } else {
        printed(lines.drop_last()) + lines.last() + "\n"@
    }
}

impl RunReport {
    /// The lines of the report.
    pub fn lines(&self) -> (r: Vec<String>)
        ensures
            texts(r@) == layout(*self),
            r@.len() <= MAX_LINES,
    {
        let mut out: Vec<String> = Vec::new();
        add_line(&mut out, run_text(self));
        add_line(&mut out, limits_text(self));
        add_line(&mut out, memory_text(self));
        add_line(&mut out, cpu_text(self));
        add_line(&mut out, io_text(self));
        add_line(&mut out, staging_text(self));
        assert(texts(out@) =~= head_lines(*self));
        add_stages(&mut out, self);
        let ghost before = texts(out@);
        add_line(&mut out, sizer_text(self));
        assert(texts(out@) =~= before + seq![sizer_line(*self)]);
        add_gil(&mut out, self);
        add_manifest(&mut out, self);
        add_trace(&mut out, self);
        add_bottlenecks(&mut out, self);
        add_notes(&mut out, self);
        proof {
            law_a_report_is_short(*self);
            assert(texts(out@).len() == out@.len());
        }
        out
    }

    /// The report as text.
    pub fn to_string(&self) -> (s: String)
        ensures
            s@ == printed(layout(*self)),
    {
        let lines = self.lines();
        let mut s = String::new();
        let mut i: usize = 0;
        while i < lines.len()
            invariant
                i <= lines@.len(),
                texts(lines@) == layout(*self),
                s@ == printed(texts(lines@).take(i as int)),
            decreases lines@.len() - i,
        {
            assert(texts(lines@).take(i + 1).drop_last() =~= texts(lines@).take(i as int));
            s.append(&lines[i]);
            s.append("\n");
            i += 1;
        }
        assert(texts(lines@).take(i as int) =~= texts(lines@));
        s
    }
}

} // verus!
