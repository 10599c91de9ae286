//! What a trace and a report say of a run.

use super::record::{newest, of_stage, TraceRecord};
use super::render::{
    as_double, binary, exit_words, figure, gil_lines, grain, half_even, head_lines, layout, note_lines,
    printed, rate, sizer_line, stage_line, stage_lines, trace_lines, truth, unit_name, unit_of,
    ExitReason, RunReport, StageReport,
};
use super::view::{all_decoded, decoded, Chunk, SpillFile, TraceView};
use crate::text::{begins, dec, ends};
use vstd::prelude::*;

verus! {

/// The records of a stage are those that name it, in their order.
pub proof fn law_a_stage_has_its_records(s: Seq<TraceRecord>, stage: u16)
    ensures
        of_stage(s, stage) == s.filter(|r: TraceRecord| r.stage == stage),
    decreases s.len(),
{
    reveal(Seq::filter);
    if s.len() > 0 {
        law_a_stage_has_its_records(s.drop_last(), stage);
    }
}

/// The newest records of a stage are the last of its records, as many as were asked for or all.
pub proof fn law_the_newest_come_last(s: Seq<TraceRecord>, stage: u16, n: nat, i: int)
    requires
        0 <= i < newest(s, stage, n).len(),
    ensures
        ({
            let all = s.filter(|r: TraceRecord| r.stage == stage);
            let some = newest(s, stage, n);
            &&& some.len() == if all.len() < n {
                all.len()
            } else {
                n
            }
            &&& some[i] == all[all.len() - some.len() + i]
            &&& some[i].stage == stage
        }),
{
    law_a_stage_has_its_records(s, stage);
    lemma_of_stage(s, stage);
    let all = of_stage(s, stage);
    assert(newest(s, stage, n)[i] == all[all.len() - newest(s, stage, n).len() + i]);
}

proof fn lemma_of_stage(s: Seq<TraceRecord>, stage: u16)
    ensures
        forall|i: int|
            0 <= i < of_stage(s, stage).len() ==> (#[trigger] of_stage(s, stage)[i]).stage == stage,
    decreases s.len(),
{
    if s.len() > 0 {
        lemma_of_stage(s.drop_last(), stage);
    }
}

/// Every row that can be read is given, in order, and no other.
pub proof fn law_every_readable_row_is_given(
    rows: Seq<Option<TraceRecord>>,
    r: TraceRecord,
    chunks: Seq<Chunk>,
    c: Chunk,
)
    ensures
        decoded(Seq::empty()) == Seq::<TraceRecord>::empty(),
        decoded(rows.push(Some(r))) == decoded(rows).push(r),
        decoded(rows.push(None)) == decoded(rows),
        all_decoded(Seq::empty()) == Seq::<TraceRecord>::empty(),
        all_decoded(chunks.push(c)) == all_decoded(chunks) + decoded(c.rows@),
{
    assert(rows.push(Some(r)).drop_last() =~= rows);
    assert(rows.push(None).drop_last() =~= rows);
    assert(chunks.push(c).drop_last() =~= chunks);
}

/// What is read of a trace: the final file once there is one that can be read, else the overflow
/// file, as many chunks as it has, if it has any and can be read.
pub proof fn law_what_is_read_of_a_trace(v: TraceView, fin: bool, over: bool)
    ensures
        v.reader(fin, over) is Final <==> v.finished && fin,
        v.reader(fin, over) matches SpillFile::Overflow(n) ==> n == v.overflow_chunks && n > 0
            && over && !(v.finished && fin),
        v.reader(fin, over) is Nothing ==> !(v.finished && fin) && (v.overflow_chunks == 0
            || !over),
{
}

/// Rounding gives the nearest whole number, and of two that are as near the even one.
pub proof fn law_rounding_is_to_the_nearest(a: nat, b: nat)
    requires
        b > 0,
    ensures
        2 * (half_even(a, b) * b - a) <= b,
        2 * (a - half_even(a, b) * b) <= b,
        2 * (half_even(a, b) * b - a) == b || 2 * (a - half_even(a, b) * b) == b ==> half_even(a, b)
            % 2 == 0,
{
    let q = a / b;
    let r = a % b;
    vstd::arithmetic::div_mod::lemma_fundamental_div_mod(a as int, b as int);
    assert(a == b * q + r);
    assert(q * b == b * q) by (nonlinear_arith);
    assert((q + 1) * b == b * q + b) by (nonlinear_arith);
}

proof fn lemma_grain(n: nat, g: nat)
    requires
        g > 0,
    ensures
        grain(n, g) >= g,
        n < 0x20_0000_0000_0000 * grain(n, g),
        grain(n, g) == g || 0x20_0000_0000_0000 * (grain(n, g) / 2) <= n,
    decreases n - g,
{
    if n >= 0x20_0000_0000_0000 * g {
        lemma_grain(n, 2 * g);
    }
}

/// A number of up to 53 bits is counted as it is; a larger one is off by no more than half of the
/// spacing of such numbers.
pub proof fn law_small_numbers_are_exact(n: nat)
    ensures
        n < 0x20_0000_0000_0000 ==> as_double(n) == n,
        2 * (as_double(n) - n) <= grain(n, 1) && 2 * (n - as_double(n)) <= grain(n, 1),
{
    lemma_grain(n, 1);
    law_rounding_is_to_the_nearest(n, grain(n, 1));
}

/// 1024 to the power of `k`.
pub open spec fn scale_of(k: nat) -> nat
    decreases k,
{
    if k == 0 {
        1
    } else {
        1024 * scale_of((k - 1) as nat)
    }
}

proof fn lemma_unit(m: nat, k: nat)
    requires
        k <= 5,
        k == 0 || m >= scale_of(k),
    ensures
        ({
            let (u, scale) = unit_of(m, k, scale_of(k));
            &&& k <= u <= 5 && scale == scale_of(u)
            &&& u == 0 || m >= scale
            &&& u < 5 ==> m < 1024 * scale
        }),
    decreases 5 - k,
{
    if k < 5 && m >= 1024 * scale_of(k) {
        lemma_unit(m, k + 1);
    }
}

/// A count of bytes is given in the largest unit that it has one of, where units go by 1024 from
/// bytes to PiB.
pub proof fn law_bytes_are_in_the_largest_unit(m: nat)
    ensures
        ({
            let (u, scale) = unit_of(m, 0, 1);
            &&& u <= 5 && scale == scale_of(u)
            &&& u > 0 ==> m >= scale
            &&& u < 5 ==> m < 1024 * scale
        }),
{
    lemma_unit(m, 0);
}

/// The names of the units, by how often 1024 goes into them.
pub proof fn law_unit_names()
    ensures
        unit_name(0) == seq!['B'],
        unit_name(1) == seq!['K', 'i', 'B'],
        unit_name(2) == seq!['M', 'i', 'B'],
        unit_name(3) == seq!['G', 'i', 'B'],
        unit_name(4) == seq!['T', 'i', 'B'],
        unit_name(5) == seq!['P', 'i', 'B'],
{
    reveal_strlit("B");
    reveal_strlit("KiB");
    reveal_strlit("MiB");
    reveal_strlit("GiB");
    reveal_strlit("TiB");
    reveal_strlit("PiB");
    assert("B"@ =~= seq!['B']);
    assert("KiB"@ =~= seq!['K', 'i', 'B']);
    assert("MiB"@ =~= seq!['M', 'i', 'B']);
    assert("GiB"@ =~= seq!['G', 'i', 'B']);
    assert("TiB"@ =~= seq!['T', 'i', 'B']);
    assert("PiB"@ =~= seq!['P', 'i', 'B']);
}

/// Fewer than 1024 bytes are given to the byte.
pub proof fn law_few_bytes_are_given_exactly(n: u64)
    requires
        n < 1024,
    ensures
        binary(n) == dec(n as nat) + seq![' ', 'B'],
{
    law_small_numbers_are_exact(n as nat);
    reveal_strlit(" B");
    assert(" B"@ =~= seq![' ', 'B']);
    reveal_with_fuel(unit_of, 2);
}

/// Whether `h` parts are the nearest to `m` over `scale`, where `part` of them make one.
pub open spec fn nearest(h: nat, part: nat, m: nat, scale: nat) -> bool {
    2 * (h * scale - part * m) <= scale && 2 * (part * m - h * scale) <= scale
}

/// Whether a text gives `h` with so many of its digits behind the point.
pub open spec fn gives(t: Seq<char>, h: nat, places: nat) -> bool {
    if places == 2 {
        t == dec(h / 100) + seq!['.'] + dec(h / 10 % 10) + dec(h % 10)
    } else if places == 1 {
        t == dec(h / 10) + seq!['.'] + dec(h % 10)
    } else {
        t == dec(h)
    }
}

/// How many parts make one, with so many digits behind the point.
pub open spec fn part_of(places: nat) -> nat {
    if places == 2 {
        100
    } else if places == 1 {
        10
    } else {
        1
    }
}

/// A figure has three digits: two behind the point below ten, one below a hundred, and none from
/// there on. It is the nearest number that so many digits can give.
pub proof fn law_figures_have_three_digits(m: nat, scale: nat)
    requires
        scale > 0,
    ensures
        exists|h: nat, places: nat|
            {
                &&& #[trigger] gives(figure(m, scale), h, places)
                &&& places <= 2 && nearest(h, part_of(places), m, scale)
                &&& places > 0 ==> h < 1000
                &&& places < 2 ==> 200 * m >= 1999 * scale
                &&& places < 1 ==> 20 * m >= 1999 * scale
            },
{
    reveal_strlit(".");
    assert("."@ =~= seq!['.']);
    let hundredths = half_even(100 * m, scale);
    let tenths = half_even(10 * m, scale);
    let whole = half_even(m, scale);
    law_rounding_is_to_the_nearest(100 * m, scale);
    law_rounding_is_to_the_nearest(10 * m, scale);
    law_rounding_is_to_the_nearest(m, scale);
    if hundredths < 1000 {
        assert(gives(figure(m, scale), hundredths, 2));
    } else {
        assert(hundredths * scale >= 1000 * scale) by (nonlinear_arith)
            requires
                hundredths >= 1000,
        ;
        if tenths < 1000 {
            assert(gives(figure(m, scale), tenths, 1));
        } else {
            assert(tenths * scale >= 1000 * scale) by (nonlinear_arith)
                requires
                    tenths >= 1000,
            ;
            assert(gives(figure(m, scale), whole, 0));
        }
    }
}

/// A rate is a count of bytes in a second, and none where there is none.
pub proof fn law_rates_are_of_a_second(v: Option<u64>)
    ensures
        v matches Some(n) ==> rate(v) == binary(n) + seq!['/', 's'],
        v is None ==> rate(v) == rate(Some(0)),
{
    reveal_strlit("/s");
    reveal_strlit("0 B/s");
    assert("/s"@ =~= seq!['/', 's']);
    law_few_bytes_are_given_exactly(0);
    assert(dec(0) =~= seq!['0']) by {
        crate::text::laws::law_decimal_reads_back(0);
    }
    assert(rate(None) =~= rate(Some(0)));
}

/// What became of a run is told apart.
pub proof fn law_ends_are_told_apart(a: ExitReason, b: ExitReason)
    requires
        exit_words(a) == exit_words(b),
    ensures
        a is Completed == b is Completed,
        a is Cancelled == b is Cancelled,
        a is Terminated && b is Terminated ==> a->diagnostic@ == b->diagnostic@,
{
    reveal_strlit("completed");
    reveal_strlit("cancelled");
    reveal_strlit("terminated: ");
    let t = "terminated: "@;
    assert("completed"@[0] == 'c' && "cancelled"@[0] == 'c' && t[0] == 't');
    assert("completed"@[1] == 'o' && "cancelled"@[1] == 'a');
    assert("completed"@.len() == 9 && "cancelled"@.len() == 9 && t.len() == 12);
    if a is Terminated {
        assert(exit_words(a)[0] == 't');
        if b is Terminated {
            assert(exit_words(a).skip(12) =~= a->diagnostic@);
            assert(exit_words(b).skip(12) =~= b->diagnostic@);
        }
    }
    if b is Terminated {
        assert(exit_words(b)[0] == 't');
    }
}

/// A report begins with its six lines on the run and has, behind them, a line for each of its first
/// 20 stages, in order. If there are more, one line says how many.
pub proof fn law_every_stage_has_its_line(r: RunReport, i: int)
    requires
        0 <= i < r.stages@.len(),
    ensures
        head_lines(r).len() == 6,
        layout(r).take(6) == head_lines(r),
        i < 20 ==> layout(r)[6 + i] == stage_line(r.stages@[i]),
        r.stages@.len() > 20 ==> layout(r)[26] == "stages: "@ + dec((r.stages@.len() - 20) as nat)
            + " more not shown"@,
{
    reveal_strlit("stages");
    reveal_strlit(": ");
    reveal_strlit("stages: ");
    assert(layout(r).take(6) =~= head_lines(r));
    let lines = stage_lines(r);
    assert(layout(r)[6 + i] == if i < lines.len() {
        lines[i]
    } else {
        layout(r)[6 + i]
    });
    if r.stages@.len() > 20 {
        assert(layout(r)[26] == lines[20]);
        assert("stages"@ + ": "@ =~= "stages: "@);
    }
}

/// A report ends in its notes: the first six, in order, and how many more there are.
pub proof fn law_a_report_ends_in_its_notes(r: RunReport, i: int)
    requires
        0 <= i < r.notes@.len(),
    ensures
        layout(r).len() >= note_lines(r).len(),
        layout(r).skip(layout(r).len() - note_lines(r).len()) == note_lines(r),
        i < 6 ==> note_lines(r)[i] == "note: "@ + r.notes@[i]@,
        note_lines(r).len() == if r.notes@.len() > 6 {
            7
        } else {
            r.notes@.len()
        },
{
    assert(layout(r).skip(layout(r).len() - note_lines(r).len()) =~= note_lines(r));
}

/// A lost or late record is told, and nothing is told where there is none.
pub proof fn law_lost_records_are_told(r: RunReport)
    ensures
        trace_lines(r).len() == 0 <==> !r.overflow_failed && r.late_records == 0,
{
}

/// Lines are printed one behind the other, each with its end.
pub proof fn law_lines_are_printed_in_order(lines: Seq<Seq<char>>, line: Seq<char>)
    ensures
        printed(Seq::empty()) == Seq::<char>::empty(),
        printed(lines.push(line)) == printed(lines) + line + seq!['\n'],
{
    reveal_strlit("\n");
    assert("\n"@ =~= seq!['\n']);
    assert(lines.push(line).drop_last() =~= lines);
    assert(lines.push(line).last() == line);
}

proof fn lemma_ends(a: Seq<char>, t: Seq<char>)
    ensures
        ends(a + t, t),
{
    let s = a + t;
    assert(s.subrange(s.len() - t.len(), s.len() as int) =~= t);
}

proof fn lemma_begins(t: Seq<char>, z: Seq<char>)
    ensures
        begins(t + z, t),
{
    assert((t + z).subrange(0, t.len() as int) =~= t);
}

/// A stage's line names the stage and how much it did. Where a morsel failed or was skipped it says
/// how many of each, and where the stage kept state how much and how it grew; else it says neither.
pub proof fn law_a_stage_tells_its_errors(s: StageReport)
    ensures
        begins(
            stage_line(s),
            "stage "@ + dec(s.stage as nat) + ": "@ + dec(s.morsels as nat) + " morsels, "@,
        ),
        s.state_bytes_max == 0 && (s.errors > 0 || s.skipped > 0) ==> ends(
            stage_line(s),
            ", "@ + dec(s.errors as nat) + " errors, "@ + dec(s.skipped as nat) + " skipped"@,
        ),
        s.state_bytes_max == 0 && s.errors == 0 && s.skipped == 0 ==> ends(
            stage_line(s),
            ", miss "@ + s.placement_miss_wait_s@ + " s"@,
        ),
        s.state_bytes_max > 0 ==> ends(
            stage_line(s),
            ", state "@ + binary(s.state_bytes_max) + " (growth "@ + s.state_growth@ + ")"@,
        ),
{
    reveal_strlit("");
    let none = ""@;
    let head = "stage "@ + dec(s.stage as nat) + ": "@ + dec(s.morsels as nat) + " morsels, "@;
    let mid = s.rows_per_s@ + " rows/s, "@ + rate(s.bytes_per_s) + ", amplification p50 "@
        + s.amplification_p50@ + " p95 "@ + s.amplification_p95@;
    let miss = ", miss "@ + s.placement_miss_wait_s@ + " s"@;
    let errors = ", "@ + dec(s.errors as nat) + " errors, "@ + dec(s.skipped as nat) + " skipped"@;
    let state = ", state "@ + binary(s.state_bytes_max) + " (growth "@ + s.state_growth@ + ")"@;
    let e = if s.errors > 0 || s.skipped > 0 {
        errors
    } else {
        none
    };
    let t = if s.state_bytes_max > 0 {
        state
    } else {
        none
    };
    let start = head + mid + miss;
    assert(stage_line(s) =~= start + e + t);
    lemma_begins(head, mid + miss + e + t);
    assert(head + (mid + miss + e + t) =~= start + e + t);
    lemma_ends(start + e, state);
    lemma_ends(start, errors);
    lemma_ends(head + mid, miss);
    assert(start + errors + none =~= start + errors);
    assert(start + none + none =~= head + mid + miss);
}

/// What the lines on a run begin with and end in: which run and what became of it, its limits, its
/// peak of memory and how much of the ceiling that was, and which ways its input took.
pub proof fn law_the_lines_on_a_run(r: RunReport)
    ensures
        begins(head_lines(r)[0], "moruna run "@ + r.run_id@ + " "@ + exit_words(r.exit)),
        r.resumed ==> ends(head_lines(r)[0], " (resumed) in "@ + r.wall_s@ + " s"@),
        begins(
            head_lines(r)[1],
            "limits: ceiling "@ + binary(r.limits.memory_ceiling) + ", kill "@ + (
            match r.limits.memory_kill {
                Some(n) => binary(n),
                None => "none"@,
            }) + ", cpu "@,
        ),
        begins(
            head_lines(r)[2],
            "memory: peak "@ + binary(r.peak_anon_bytes) + " of ceiling "@ + binary(
                r.limits.memory_ceiling,
            ),
        ),
        ends(head_lines(r)[3], ", throttled "@ + r.cpu_throttled_fraction@),
        begins(head_lines(r)[3], "cpu: workers busy "@ + r.worker_busy_fraction@),
        begins(head_lines(r)[4], "io: source "@ + rate(r.source_bytes_per_s)),
        ends(
            head_lines(r)[4],
            " direct_io "@ + truth(r.io_paths.direct_io) + " io_uring "@ + truth(
                r.io_paths.io_uring,
            ) + " gds "@ + truth(r.io_paths.gds) + " pinned "@ + truth(r.io_paths.pinned)
                + " rdma "@ + truth(r.io_paths.rdma),
        ),
        r.staging_engaged ==> begins(head_lines(r)[5], "staging: engaged"@),
        !r.staging_engaged ==> begins(head_lines(r)[5], "staging: not engaged"@),
        ends(
            head_lines(r)[5],
            ", staging bandwidth "@ + rate(r.staging_bandwidth) + " beside source bandwidth "@
                + rate(r.source_bandwidth),
        ),
{
    lemma_run_line(r);
    lemma_limit_lines(r);
    lemma_io_lines(r);
}

proof fn lemma_run_line(r: RunReport)
    ensures
        begins(head_lines(r)[0], "moruna run "@ + r.run_id@ + " "@ + exit_words(r.exit)),
        r.resumed ==> ends(head_lines(r)[0], " (resumed) in "@ + r.wall_s@ + " s"@),
{
    let line = head_lines(r)[0];
    let head = "moruna run "@ + r.run_id@ + " "@ + exit_words(r.exit);
    let again = if r.resumed {
        " (resumed)"@
    } else {
        ""@
    };
    let end = " in "@ + r.wall_s@ + " s"@;
    lemma_begins(head, again + end);
    assert(line =~= head + (again + end));
    if r.resumed {
        reveal_strlit(" (resumed) in ");
        reveal_strlit(" (resumed)");
        reveal_strlit(" in ");
        assert(" (resumed)"@ + " in "@ =~= " (resumed) in "@);
        let tail = " (resumed) in "@ + r.wall_s@ + " s"@;
        assert(again + end =~= tail);
        lemma_ends(head, tail);
    }
}

proof fn lemma_limit_lines(r: RunReport)
    ensures
        begins(
            head_lines(r)[1],
            "limits: ceiling "@ + binary(r.limits.memory_ceiling) + ", kill "@ + (
            match r.limits.memory_kill {
                Some(n) => binary(n),
                None => "none"@,
            }) + ", cpu "@,
        ),
        begins(
            head_lines(r)[2],
            "memory: peak "@ + binary(r.peak_anon_bytes) + " of ceiling "@ + binary(
                r.limits.memory_ceiling,
            ),
        ),
        ends(head_lines(r)[3], ", throttled "@ + r.cpu_throttled_fraction@),
        begins(head_lines(r)[3], "cpu: workers busy "@ + r.worker_busy_fraction@),
{
    let kill = match r.limits.memory_kill {
        Some(n) => binary(n),
        None => "none"@,
    };
    let head = "limits: ceiling "@ + binary(r.limits.memory_ceiling) + ", kill "@ + kill + ", cpu "@;
    let devices = if r.limits.devices == 0 {
        ""@
    } else {
        ", devices "@ + dec(r.limits.devices as nat)
    };
    let rest = r.limits.cpu_quota@ + ", source "@ + r.limits.source@ + devices;
    lemma_begins(head, rest);
    assert(head_lines(r)[1] =~= head + rest);
    let peak = "memory: peak "@ + binary(r.peak_anon_bytes) + " of ceiling "@ + binary(
        r.limits.memory_ceiling,
    );
    let more = " ("@ + r.peak_fraction_of_ceiling@ + " of ceiling)"@;
    lemma_begins(peak, more);
    assert(head_lines(r)[2] =~= peak + more);
    let busy = "cpu: workers busy "@ + r.worker_busy_fraction@;
    let throttled = ", throttled "@ + r.cpu_throttled_fraction@;
    lemma_begins(busy, throttled);
    lemma_ends(busy, throttled);
    assert(head_lines(r)[3] =~= busy + throttled);
}

proof fn lemma_apart(x: Seq<char>, v: Seq<Seq<char>>)
    requires
        v.len() == 10,
    ensures
        x + v[0] + v[1] + v[2] + v[3] + v[4] + v[5] + v[6] + v[7] + v[8] + v[9] == x + (v[0] + v[1]
            + v[2] + v[3] + v[4] + v[5] + v[6] + v[7] + v[8] + v[9]),
{
    let a1 = v[0] + v[1];
    let a2 = a1 + v[2];
    let a3 = a2 + v[3];
    let a4 = a3 + v[4];
    let a5 = a4 + v[5];
    let a6 = a5 + v[6];
    let a7 = a6 + v[7];
    let a8 = a7 + v[8];
    lemma_shift(x, v[0], v[1]);
    lemma_shift(x, a1, v[2]);
    lemma_shift(x, a2, v[3]);
    lemma_shift(x, a3, v[4]);
    lemma_shift(x, a4, v[5]);
    lemma_shift(x, a5, v[6]);
    lemma_shift(x, a6, v[7]);
    lemma_shift(x, a7, v[8]);
    lemma_shift(x, a8, v[9]);
}

proof fn lemma_shift(x: Seq<char>, y: Seq<char>, z: Seq<char>)
    ensures
        x + y + z == x + (y + z),
{
    assert(x + y + z =~= x + (y + z));
}

proof fn lemma_io_lines(r: RunReport)
    ensures
        begins(head_lines(r)[4], "io: source "@ + rate(r.source_bytes_per_s)),
        ends(
            head_lines(r)[4],
            " direct_io "@ + truth(r.io_paths.direct_io) + " io_uring "@ + truth(
                r.io_paths.io_uring,
            ) + " gds "@ + truth(r.io_paths.gds) + " pinned "@ + truth(r.io_paths.pinned)
                + " rdma "@ + truth(r.io_paths.rdma),
        ),
        r.staging_engaged ==> begins(head_lines(r)[5], "staging: engaged"@),
        !r.staging_engaged ==> begins(head_lines(r)[5], "staging: not engaged"@),
        ends(
            head_lines(r)[5],
            ", staging bandwidth "@ + rate(r.staging_bandwidth) + " beside source bandwidth "@
                + rate(r.source_bandwidth),
        ),
{
    lemma_ways(r);
    lemma_staging(r);
}

proof fn lemma_ways(r: RunReport)
    ensures
        begins(head_lines(r)[4], "io: source "@ + rate(r.source_bytes_per_s)),
        ends(
            head_lines(r)[4],
            " direct_io "@ + truth(r.io_paths.direct_io) + " io_uring "@ + truth(
                r.io_paths.io_uring,
            ) + " gds "@ + truth(r.io_paths.gds) + " pinned "@ + truth(r.io_paths.pinned)
                + " rdma "@ + truth(r.io_paths.rdma),
        ),
{
    let source = "io: source "@ + rate(r.source_bytes_per_s);
    let front = source + ", paths"@;
    assert(source + ", paths direct_io "@ == front + " direct_io "@) by {
        reveal_strlit(", paths direct_io ");
        reveal_strlit(", paths");
        reveal_strlit(" direct_io ");
        assert(", paths direct_io "@ =~= ", paths"@ + " direct_io "@);
        lemma_shift(source, ", paths"@, " direct_io "@);
    }
    let v = seq![
        " direct_io "@,
        truth(r.io_paths.direct_io),
        " io_uring "@,
        truth(r.io_paths.io_uring),
        " gds "@,
        truth(r.io_paths.gds),
        " pinned "@,
        truth(r.io_paths.pinned),
        " rdma "@,
        truth(r.io_paths.rdma),
    ];
    lemma_apart(front, v);
    let ways = v[0] + v[1] + v[2] + v[3] + v[4] + v[5] + v[6] + v[7] + v[8] + v[9];
    lemma_ends(front, ways);
    lemma_shift(source, ", paths"@, ways);
    lemma_begins(source, ", paths"@ + ways);
}

proof fn lemma_staging(r: RunReport)
    ensures
        r.staging_engaged ==> begins(head_lines(r)[5], "staging: engaged"@),
        !r.staging_engaged ==> begins(head_lines(r)[5], "staging: not engaged"@),
        ends(
            head_lines(r)[5],
            ", staging bandwidth "@ + rate(r.staging_bandwidth) + " beside source bandwidth "@
                + rate(r.source_bandwidth),
        ),
{
    reveal_strlit("staging: ");
    reveal_strlit("engaged");
    reveal_strlit("not engaged");
    reveal_strlit("staging: engaged");
    reveal_strlit("staging: not engaged");
    assert("staging: "@ + "engaged"@ =~= "staging: engaged"@);
    assert("staging: "@ + "not engaged"@ =~= "staging: not engaged"@);
    let head = "staging: "@ + if r.staging_engaged {
        "engaged"@
    } else {
        "not engaged"@
    };
    let end = ", staging bandwidth "@ + rate(r.staging_bandwidth) + " beside source bandwidth "@
        + rate(r.source_bandwidth);
    let written = ", written "@ + binary(r.staging_bytes_written);
    assert(head_lines(r)[5] =~= head + (written + end));
    assert(head_lines(r)[5] =~= (head + written) + end);
    lemma_begins(head, written + end);
    lemma_ends(head + written, end);
}

/// Truth is told as it is.
pub proof fn law_truth_is_told(b: bool)
    ensures
        truth(b) == if b {
            seq!['t', 'r', 'u', 'e']
        } else {
            seq!['f', 'a', 'l', 's', 'e']
        },
{
    reveal_strlit("true");
    reveal_strlit("false");
    assert("true"@ =~= seq!['t', 'r', 'u', 'e']);
    assert("false"@ =~= seq!['f', 'a', 'l', 's', 'e']);
}

/// The sizer's line names the one that was used and, where it gave way, at which morsel. Python is
/// spoken of where it ran, and as serialised exactly where it was.
pub proof fn law_the_sizer_and_python_are_told(r: RunReport)
    ensures
        r.sizer_fallback_at is None ==> sizer_line(r) == "sizer: "@ + r.sizer_used@,
        r.sizer_fallback_at matches Some(n) ==> ends(sizer_line(r), " at morsel "@ + dec(n as nat))
            && begins(sizer_line(r), "sizer: "@ + r.sizer_used@ + ", fell back"@),
        gil_lines(r).len() == 0 <==> r.gil@.len() == 0,
        r.gil@.len() > 0 && r.gil_serialised ==> begins(gil_lines(r)[0], "python: serialised"@),
        r.gil@.len() > 0 && !r.gil_serialised ==> begins(
            gil_lines(r)[0],
            "python: free threaded"@,
        ),
{
    reveal_strlit("");
    reveal_strlit(", fell back");
    reveal_strlit(" to the rule sizer");
    reveal_strlit(" at morsel ");
    reveal_strlit(", fell back to the rule sizer at morsel ");
    let used = "sizer: "@ + r.sizer_used@;
    if let Some(n) = r.sizer_fallback_at {
        let d = dec(n as nat);
        assert(", fell back to the rule sizer at morsel "@ =~= ", fell back"@
            + " to the rule sizer"@ + " at morsel "@);
        let front = used + ", fell back"@;
        let back = " at morsel "@ + d;
        assert(sizer_line(r) =~= front + (" to the rule sizer"@ + back));
        assert(sizer_line(r) =~= (front + " to the rule sizer"@) + back);
        lemma_begins(front, " to the rule sizer"@ + back);
        lemma_ends(front + " to the rule sizer"@, back);
    } else {
        assert(sizer_line(r) =~= used);
    }
    if r.gil@.len() > 0 {
        reveal_strlit("python: ");
        reveal_strlit("serialised");
        reveal_strlit(" on at least one stage");
        reveal_strlit("serialised on at least one stage");
        reveal_strlit("free threaded");
        reveal_strlit("python: serialised");
        reveal_strlit("python: free threaded");
        assert("serialised on at least one stage"@ =~= "serialised"@ + " on at least one stage"@);
        assert("python: "@ + "serialised"@ =~= "python: serialised"@);
        assert("python: "@ + "free threaded"@ =~= "python: free threaded"@);
        let line = gil_lines(r)[0];
        let word = if r.gil_serialised {
            "python: serialised"@
        } else {
            "python: free threaded"@
        };
        assert(line.subrange(0, word.len() as int) =~= word);
    }
}

} // verus!
