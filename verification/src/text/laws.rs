//! What numbers and white space in texts mean: what is written reads back, and trimming takes off
//! white space and nothing else.

use super::{
    all_digits, dec, digit_char, digits, hex0x, is_digit, is_space, number, parsed, trim_end,
    trim_start, trimmed, unsigned,
};
use vstd::prelude::*;

verus! {

/// What a hexadecimal digit counts.
pub open spec fn hex_digit(c: char) -> int {
    if '0' <= c <= '9' {
        c as int - 48
    } else if 'a' <= c <= 'f' {
        c as int - 87
    } else {
        -1
    }
}

/// What hexadecimal digits count, the last one least.
pub open spec fn hex_value(s: Seq<char>) -> int
    decreases s.len(),
{
    if s.len() == 0 {
        0
    } else {
        16 * hex_value(s.drop_last()) + hex_digit(s.last())
    }
}

/// A number in decimal is made of digits, without zeros before them, and counts what it is.
pub proof fn law_decimal_reads_back(n: nat)
    ensures
        dec(n).len() > 0,
        all_digits(dec(n)),
        number(dec(n)) == n,
        n > 0 ==> dec(n)[0] != '0',
        n == 0 ==> dec(n) == seq!['0'],
    decreases n,
{
    if n < 10 {
        assert(dec(n) =~= seq![digit_char(n)]);
        assert(seq![digit_char(n)].drop_last() =~= Seq::empty());
        assert(number(seq![digit_char(n)].drop_last()) == 0);
        assert(number(dec(n)) == n);
    } else {
        law_decimal_reads_back(n / 10);
        let s = digits(n / 10, 10);
        let c = digit_char(n % 10);
        assert(dec(n) == s.push(c));
        assert(s.push(c).drop_last() =~= s);
        assert(is_digit(c));
        assert(number(s.push(c)) == 10 * number(s) + n % 10);
        assert(s.push(c)[0] == s[0]);
    }
}

/// Two numbers written alike are the same.
pub proof fn law_decimals_tell_numbers_apart(a: nat, b: nat)
    requires
        dec(a) == dec(b),
    ensures
        a == b,
{
    law_decimal_reads_back(a);
    law_decimal_reads_back(b);
}

/// Parsing gives back the number that was written, with a plus before it or without, where it is
/// no larger than it may be.
pub proof fn law_parsing_undoes_writing(n: nat, max: nat)
    ensures
        parsed(dec(n), max) == (if n <= max {
            Some(n)
        } else {
            None
        }),
        parsed(seq!['+'] + dec(n), max) == parsed(dec(n), max),
{
    law_decimal_reads_back(n);
    assert(is_digit(dec(n)[0]));
    assert(unsigned(dec(n)) == dec(n));
    let s = seq!['+'] + dec(n);
    assert(s[0] == '+');
    assert(unsigned(s) =~= dec(n));
}

/// A text that parses is digits behind at most one plus, and nothing else.
pub proof fn law_only_digits_parse(s: Seq<char>, max: nat, i: int)
    requires
        parsed(s, max) is Some,
        0 <= i < s.len(),
    ensures
        is_digit(s[i]) || (i == 0 && s[0] == '+'),
        parsed(s, max)->0 <= max,
        s.len() > 1 || is_digit(s[0]),
{
    let t = unsigned(s);
    if s[0] == '+' {
        if i > 0 {
            assert(t[i - 1] == s[i]);
        }
    }
}

/// A number in hexadecimal counts what it is behind its `0x`, and is not padded.
pub proof fn law_hexadecimal_reads_back(n: nat)
    ensures
        hex0x(n).len() > 2,
        hex0x(n)[0] == '0' && hex0x(n)[1] == 'x',
        hex_value(hex0x(n).subrange(2, hex0x(n).len() as int)) == n,
        n > 0 ==> hex0x(n)[2] != '0',
{
    lemma_hex_digits(n);
    reveal_strlit("0x");
    assert(hex0x(n).subrange(2, hex0x(n).len() as int) =~= digits(n, 16));
    assert(hex0x(n)[2] == digits(n, 16)[0]);
}

proof fn lemma_hex_digits(n: nat)
    ensures
        digits(n, 16).len() > 0,
        hex_value(digits(n, 16)) == n,
        n > 0 ==> digits(n, 16)[0] != '0',
    decreases n,
{
    if n < 16 {
        let s = seq![digit_char(n)];
        assert(digits(n, 16) =~= s);
        assert(s.drop_last() =~= Seq::empty());
        assert(hex_value(s.drop_last()) == 0);
        assert(hex_digit(digit_char(n)) == n);
    } else {
        lemma_hex_digits(n / 16);
        let s = digits(n / 16, 16);
        let c = digit_char(n % 16);
        assert(s.push(c).drop_last() =~= s);
        assert(hex_digit(c) == n % 16);
        assert(s.push(c)[0] == s[0]);
    }
}

/// Trimming takes white space off both ends and nothing else: what is left stands in the text,
/// only white space stands before and after it, and it neither begins nor ends with any.
pub proof fn law_trimming_takes_white_space_off(s: Seq<char>)
    ensures
        exists|a: int, b: int| #[trigger] spaced_around(s, a, b) && trimmed(s) == s.subrange(a, b),
        trimmed(s).len() > 0 ==> !is_space(trimmed(s)[0]) && !is_space(trimmed(s).last()),
{
    lemma_trim_start(s);
    let t = trim_start(s);
    lemma_trim_end(t);
    let a = s.len() - t.len();
    let b = a + trim_end(t).len();
    assert(trimmed(s) =~= s.subrange(a, b));
    assert forall|i: int| 0 <= i < a || b <= i < s.len() implies is_space(#[trigger] s[i]) by {
        if i >= b {
            assert(t[i - a] == s[i]);
        }
    }
    assert(spaced_around(s, a, b));
    if trimmed(s).len() > 0 {
        assert(trim_end(t)[0] == t[0]);
    }
}

/// Whether `s` has only white space before `a` and from `b` on.
pub open spec fn spaced_around(s: Seq<char>, a: int, b: int) -> bool {
    &&& 0 <= a <= b <= s.len()
    &&& forall|i: int| 0 <= i < a || b <= i < s.len() ==> is_space(#[trigger] s[i])
}

proof fn lemma_trim_start(s: Seq<char>)
    ensures
        trim_start(s).len() <= s.len(),
        trim_start(s) == s.subrange(s.len() - trim_start(s).len(), s.len() as int),
        forall|i: int| 0 <= i < s.len() - trim_start(s).len() ==> is_space(#[trigger] s[i]),
        trim_start(s).len() > 0 ==> !is_space(trim_start(s)[0]),
    decreases s.len(),
{
    if s.len() > 0 && is_space(s[0]) {
        let r = s.subrange(1, s.len() as int);
        lemma_trim_start(r);
        let t = trim_start(s);
        assert(t =~= s.subrange(s.len() - t.len(), s.len() as int));
        assert forall|i: int| 0 <= i < s.len() - t.len() implies is_space(#[trigger] s[i]) by {
            if i > 0 {
                assert(r[i - 1] == s[i]);
            }
        }
    } else {
        assert(s.subrange(0, s.len() as int) =~= s);
    }
}

proof fn lemma_trim_end(s: Seq<char>)
    ensures
        trim_end(s).len() <= s.len(),
        trim_end(s) == s.subrange(0, trim_end(s).len() as int),
        forall|i: int| trim_end(s).len() <= i < s.len() ==> is_space(#[trigger] s[i]),
        trim_end(s).len() > 0 ==> !is_space(trim_end(s).last()),
    decreases s.len(),
{
    if s.len() > 0 && is_space(s.last()) {
        let r = s.drop_last();
        lemma_trim_end(r);
        let t = trim_end(s);
        assert(t =~= s.subrange(0, t.len() as int));
        assert forall|i: int| t.len() <= i < s.len() implies is_space(#[trigger] s[i]) by {
            if i < s.len() - 1 {
                assert(r[i] == s[i]);
            }
        }
    } else {
        assert(s.subrange(0, s.len() as int) =~= s);
    }
}

/// A text without white space at its ends is left as it is.
pub proof fn law_trimming_leaves_the_rest(s: Seq<char>)
    requires
        s.len() > 0,
        !is_space(s[0]),
        !is_space(s.last()),
    ensures
        trimmed(s) == s,
{
}

/// The blank is white space, and so are tabs and line ends; letters and digits are not.
pub proof fn law_white_space(c: char)
    ensures
        c == ' ' || c == '\t' || c == '\n' || c == '\r' ==> is_space(c),
        is_digit(c) || 'a' <= c <= 'z' || 'A' <= c <= 'Z' || c == '-' || c == '_' || c == '/'
            ==> !is_space(c),
{
}

} // verus!
