//! Text: decimal and hexadecimal numbers, joining, and the few string predicates the command
//! line and the error messages need, each stated over sequences of characters.

pub mod laws;

use vstd::prelude::*;
use vstd::utf8::*;

verus! {

/// `String::push` appends one character.
pub assume_specification[ String::push ](s: &mut String, c: char)
    ensures
        final(s)@ == old(s)@.push(c),
;

/// The character of a digit below 16, in lower case.
pub open spec fn digit_char(d: nat) -> char {
    if d < 10 {
        (('0' as nat) + d) as char
    } else {
        (('a' as nat) + d - 10) as char
    }
}

/// `n` written in `base`, most significant digit first, no leading zeros.
pub open spec fn digits(n: nat, base: nat) -> Seq<char>
    decreases n,
{
    if base < 2 || n < base {
        seq![digit_char(n)]
    } else {
        proof {
            assert(n / base < n) by (nonlinear_arith)
                requires
                    2 <= base <= n,
            ;
        }
        digits(n / base, base).push(digit_char(n % base))
    }
}

/// `n` in decimal.
pub open spec fn dec(n: nat) -> Seq<char> {
    digits(n, 10)
}

/// `n` in hexadecimal with the `0x` prefix.
pub open spec fn hex0x(n: nat) -> Seq<char> {
    "0x"@ + digits(n, 16)
}

fn digit(d: u64) -> (c: char)
    requires
        d < 16,
    ensures
        c == digit_char(d as nat),
{
    if d < 10 {
        (48u8 + d as u8) as char
    } else {
        (87u8 + d as u8) as char
    }
}

/// Append `n` in `base` to `out`.
pub fn push_digits(out: &mut String, n: u64, base: u64)
    requires
        2 <= base <= 16,
    ensures
        final(out)@ == old(out)@ + digits(n as nat, base as nat),
    decreases n,
{
    if n < base {
        out.push(digit(n));
    } else {
        assert(n / base < n) by (nonlinear_arith)
            requires
                2 <= base,
                n >= base,
        ;
        push_digits(out, n / base, base);
        out.push(digit(n % base));
    }
    assert(out@ =~= old(out)@ + digits(n as nat, base as nat));
}

/// `n` in decimal.
pub fn dec_text(n: u64) -> (s: String)
    ensures
        s@ == dec(n as nat),
{
    let mut s = String::new();
    push_digits(&mut s, n, 10);
    assert(s@ =~= dec(n as nat));
    s
}

/// `n` in hexadecimal with the `0x` prefix.
pub fn hex0x_text(n: u64) -> (s: String)
    ensures
        s@ == hex0x(n as nat),
{
    let mut s = "0x".to_owned();
    push_digits(&mut s, n, 16);
    s
}

/// Two texts, one after the other.
pub fn cat2(a: &str, b: &str) -> (s: String)
    ensures
        s@ == a@ + b@,
{
    let mut s = a.to_owned();
    s.append(b);
    s
}

/// Three texts, one after the other.
pub fn cat3(a: &str, b: &str, c: &str) -> (s: String)
    ensures
        s@ == a@ + b@ + c@,
{
    let mut s = a.to_owned();
    s.append(b);
    s.append(c);
    s
}

/// Four texts, one after the other.
pub fn cat4(a: &str, b: &str, c: &str, d: &str) -> (s: String)
    ensures
        s@ == a@ + b@ + c@ + d@,
{
    let mut s = a.to_owned();
    s.append(b);
    s.append(c);
    s.append(d);
    s
}

/// Five texts, one after the other.
pub fn cat5(a: &str, b: &str, c: &str, d: &str, e: &str) -> (s: String)
    ensures
        s@ == a@ + b@ + c@ + d@ + e@,
{
    let mut s = a.to_owned();
    s.append(b);
    s.append(c);
    s.append(d);
    s.append(e);
    s
}

/// Whether two texts are the same.
pub fn same(a: &str, b: &str) -> (r: bool)
    ensures
        r == (a@ == b@),
{
    a.to_owned() == b.to_owned()
}

/// The characters of a text.
pub fn chars_of(s: &str) -> (v: Vec<char>)
    ensures
        v@ == s@,
{
    let mut v: Vec<char> = Vec::new();
    for c in it: s.chars()
        invariant
            it.seq() == s@,
            v@ == s@.take(it.index() as int),
    {
        v.push(c);
        assert(s@.take(it.index() as int + 1) =~= s@.take(it.index() as int).push(c));
    }
    assert(s@.take(s@.len() as int) =~= s@);
    v
}

/// The text made of `v[from..to]`.
pub fn text_of(v: &Vec<char>, from: usize, to: usize) -> (s: String)
    requires
        from <= to <= v@.len(),
    ensures
        s@ == v@.subrange(from as int, to as int),
{
    let mut s = String::new();
    let mut i: usize = from;
    while i < to
        invariant
            from <= i <= to <= v@.len(),
            s@ == v@.subrange(from as int, i as int),
        decreases to - i,
    {
        s.push(v[i]);
        assert(v@.subrange(from as int, i as int + 1) =~= v@.subrange(from as int, i as int).push(
            v@[i as int],
        ));
        i += 1;
    }
    s
}

/// The characters Unicode calls white space.
pub open spec fn is_space(c: char) -> bool {
    let n = c as u32;
    ||| 0x9 <= n <= 0xd
    ||| n == 0x20
    ||| n == 0x85
    ||| n == 0xa0
    ||| n == 0x1680
    ||| 0x2000 <= n <= 0x200a
    ||| n == 0x2028
    ||| n == 0x2029
    ||| n == 0x202f
    ||| n == 0x205f
    ||| n == 0x3000
}

/// Whether `c` is white space.
pub fn space(c: char) -> (r: bool)
    ensures
        r == is_space(c),
{
    let n: u32 = c as u32;
    (0x9 <= n && n <= 0xd) || n == 0x20 || n == 0x85 || n == 0xa0 || n == 0x1680 || (0x2000 <= n
        && n <= 0x200a) || n == 0x2028 || n == 0x2029 || n == 0x202f || n == 0x205f || n == 0x3000
}

/// `s` without leading white space.
pub open spec fn trim_start(s: Seq<char>) -> Seq<char>
    decreases s.len(),
{
    if s.len() > 0 && is_space(s[0]) {
        trim_start(s.subrange(1, s.len() as int))
    } else {
        s
    }
}

/// `s` without trailing white space.
pub open spec fn trim_end(s: Seq<char>) -> Seq<char>
    decreases s.len(),
{
    if s.len() > 0 && is_space(s.last()) {
        trim_end(s.drop_last())
    } else {
        s
    }
}

/// `s` without white space at either end.
pub open spec fn trimmed(s: Seq<char>) -> Seq<char> {
    trim_end(trim_start(s))
}

/// Where `v[from..to]` starts and ends without white space at either end.
pub fn trim(v: &Vec<char>, from: usize, to: usize) -> (r: (usize, usize))
    requires
        from <= to <= v@.len(),
    ensures
        from <= r.0 <= r.1 <= to,
        v@.subrange(r.0 as int, r.1 as int) == trimmed(v@.subrange(from as int, to as int)),
{
    let ghost whole = v@.subrange(from as int, to as int);
    let mut a: usize = from;
    assert(v@.subrange(a as int, to as int) =~= whole);
    while a < to && space(v[a])
        invariant
            from <= a <= to <= v@.len(),
            trim_start(v@.subrange(a as int, to as int)) == trim_start(whole),
        decreases to - a,
    {
        let ghost s = v@.subrange(a as int, to as int);
        assert(s.subrange(1, s.len() as int) =~= v@.subrange(a as int + 1, to as int));
        a += 1;
    }
    assert(trim_start(whole) == v@.subrange(a as int, to as int));
    let ghost mid = v@.subrange(a as int, to as int);
    let mut b: usize = to;
    assert(v@.subrange(a as int, b as int) =~= mid);
    while b > a && space(v[b - 1])
        invariant
            from <= a <= b <= to <= v@.len(),
            trim_end(v@.subrange(a as int, b as int)) == trim_end(mid),
        decreases b,
    {
        let ghost s = v@.subrange(a as int, b as int);
        assert(s.drop_last() =~= v@.subrange(a as int, b as int - 1));
        b -= 1;
    }
    (a, b)
}

/// Whether `c` is one of `0` to `9`.
pub open spec fn is_digit(c: char) -> bool {
    '0' <= c <= '9'
}

/// The value of decimal digits.
pub open spec fn number(s: Seq<char>) -> nat
    decreases s.len(),
{
    if s.len() == 0 {
        0
    } else {
        10 * number(s.drop_last()) + (s.last() as nat - '0' as nat) as nat
    }
}

/// The whole number `s` spells, if it is at most `max`: digits, with an optional `+` in front.
pub open spec fn parsed(s: Seq<char>, max: nat) -> Option<nat> {
    let t = unsigned(s);
    if t.len() > 0 && all_digits(t) && number(t) <= max {
        Some(number(t))
    } else {
        None
    }
}

/// `s` without a leading `+`.
pub open spec fn unsigned(s: Seq<char>) -> Seq<char> {
    if s.len() > 0 && s[0] == '+' {
        s.subrange(1, s.len() as int)
    } else {
        s
    }
}

/// Whether `s` holds nothing but digits.
pub open spec fn all_digits(s: Seq<char>) -> bool {
    forall|i: int| 0 <= i < s.len() ==> is_digit(#[trigger] s[i])
}

proof fn lemma_number_grows(s: Seq<char>, i: int)
    requires
        0 <= i <= s.len(),
    ensures
        number(s.subrange(0, i)) <= number(s),
    decreases s.len() - i,
{
    if i == s.len() {
        assert(s.subrange(0, i) =~= s);
    } else {
        lemma_number_grows(s, i + 1);
        assert(s.subrange(0, i + 1).drop_last() =~= s.subrange(0, i));
    }
}

/// The whole number `v[from..to]` spells, if it is at most `max`.
pub fn parse_number(v: &Vec<char>, from: usize, to: usize, max: u64) -> (r: Option<u64>)
    requires
        from <= to <= v@.len(),
    ensures
        match r {
            Some(n) => parsed(v@.subrange(from as int, to as int), max as nat) == Some(n as nat),
            None => parsed(v@.subrange(from as int, to as int), max as nat) is None,
        },
{
    let ghost s = v@.subrange(from as int, to as int);
    let start: usize = if from < to && v[from] == '+' {
        from + 1
    } else {
        from
    };
    let ghost t = unsigned(s);
    assert(t =~= v@.subrange(start as int, to as int));
    if start == to {
        return None;
    }
    let mut n: u64 = 0;
    let mut i: usize = start;
    assert(t.subrange(0, 0).len() == 0);
    while i < to
        invariant
            from <= start <= i <= to <= v@.len(),
            t == v@.subrange(start as int, to as int),
            s == v@.subrange(from as int, to as int),
            t == unsigned(s),
            n == number(t.subrange(0, i - start)),
            n <= max,
            forall|j: int| 0 <= j < i - start ==> is_digit(#[trigger] t[j]),
        decreases to - i,
    {
        let c = v[i];
        assert(c == t[i - start]);
        if c < '0' || c > '9' {
            assert(!is_digit(t[i - start]));
            return None;
        }
        let d: u64 = (c as u32 - 48) as u64;
        let ghost before = t.subrange(0, i - start);
        assert(t.subrange(0, i - start + 1).drop_last() =~= before);
        assert(number(t.subrange(0, i - start + 1)) == 10 * n + d);
        if d > max || n > (max - d) / 10 {
            proof {
                lemma_number_grows(t, i - start + 1);
                assert(10 * n + d > max);
            }
            return None;
        }
        n = 10 * n + d;
        i += 1;
    }
    assert(t.subrange(0, to - start) =~= t);
    Some(n)
}

/// The whole number that `s` spells as a signed integer, if it is not negative and at most
/// `max`; a minus sign only before zero.
pub open spec fn natural(s: Seq<char>, max: nat) -> Option<nat> {
    if s.len() > 0 && s[0] == '-' {
        let t = s.subrange(1, s.len() as int);
        if t.len() > 0 && t[0] == '+' {
            None
        } else {
            parsed(t, 0)
        }
    } else {
        parsed(s, max)
    }
}

/// The whole number that `v[from..to]` spells as a signed integer, if it is not negative and at
/// most `max`.
pub fn parse_natural(v: &Vec<char>, from: usize, to: usize, max: u64) -> (r: Option<u64>)
    requires
        from <= to <= v@.len(),
    ensures
        match r {
            Some(n) => natural(v@.subrange(from as int, to as int), max as nat) == Some(n as nat),
            None => natural(v@.subrange(from as int, to as int), max as nat) is None,
        },
{
    let ghost s = v@.subrange(from as int, to as int);
    if from < to && v[from] == '-' {
        assert(v@.subrange(from + 1, to as int) =~= s.subrange(1, s.len() as int));
        if from + 1 < to && v[from + 1] == '+' {
            return None;
        }
        return parse_number(v, from + 1, to, 0);
    }
    parse_number(v, from, to, max)
}

/// Texts by their views.
pub open spec fn texts(v: Seq<String>) -> Seq<Seq<char>> {
    v.map_values(|t: String| t@)
}

/// What `String::from_utf8_lossy` makes of some bytes.
pub uninterp spec fn utf8_lossy(b: Seq<u8>) -> Seq<char>;

/// `String::from_utf8_lossy`: bytes as text, with what is not UTF-8 replaced. The text of
/// bytes that are some text's UTF-8 encoding is that text.
#[verifier::external_body]
pub(crate) fn lossy_text(b: &[u8]) -> (s: String)
    ensures
        s@ == utf8_lossy(b@),
        forall|t: Seq<char>| b@ == #[trigger] encode_utf8(t) ==> s@ == t,
{
    String::from_utf8_lossy(b).into_owned()
}

/// What `std::str::from_utf8` says of bytes that are not UTF-8.
pub uninterp spec fn utf8_fault(b: Seq<u8>) -> Seq<char>;

/// `std::str::from_utf8`: bytes that are UTF-8 as text, and what is wrong with others.
#[verifier::external_body]
pub(crate) fn strict_text(b: &[u8]) -> (r: std::result::Result<String, String>)
    ensures
        r is Ok == valid_utf8(b@),
        r is Ok ==> r->Ok_0@ == decode_utf8(b@),
        r is Err ==> r->Err_0@ == utf8_fault(b@),
{
    match std::str::from_utf8(b) {
        Ok(s) => Ok(s.to_string()),
        Err(e) => Err(e.to_string()),
    }
}

/// What `{:?}` makes of a text.
pub uninterp spec fn debug_text(s: Seq<char>) -> Seq<char>;

/// `str`'s `Debug`: the text in quotes, with what needs it escaped.
#[verifier::external_body]
pub(crate) fn quoted(s: &str) -> (r: String)
    ensures
        r@ == debug_text(s@),
{
    format!("{s:?}")
}

/// Whether `s` starts with `p`.
pub open spec fn begins(s: Seq<char>, p: Seq<char>) -> bool {
    s.len() >= p.len() && s.subrange(0, p.len() as int) == p
}

/// Whether `s` ends with `p`.
pub open spec fn ends(s: Seq<char>, p: Seq<char>) -> bool {
    s.len() >= p.len() && s.subrange(s.len() - p.len(), s.len() as int) == p
}

/// Whether `v[at..at + p.len()]` is `p`.
pub fn occurs(v: &Vec<char>, at: usize, p: &Vec<char>) -> (r: bool)
    requires
        at + p@.len() <= v@.len(),
    ensures
        r == (v@.subrange(at as int, at + p@.len()) == p@),
{
    let n = p.len();
    let mut i: usize = 0;
    while i < n
        invariant
            i <= n,
            n == p@.len(),
            at + n <= v@.len(),
            forall|j: int| 0 <= j < i ==> v@[at + j] == #[trigger] p@[j],
        decreases n - i,
    {
        assert(v.len() == v@.len());
        if v[at + i] != p[i] {
            assert(v@.subrange(at as int, at + n)[i as int] != p@[i as int]);
            return false;
        }
        i += 1;
    }
    assert(v@.subrange(at as int, at + n) =~= p@);
    true
}

/// The rest of `s` after the prefix `p`, if it starts with it.
pub fn strip_prefix(s: &str, p: &str) -> (r: Option<String>)
    ensures
        match r {
            Some(t) => begins(s@, p@) && t@ == s@.subrange(p@.len() as int, s@.len() as int),
            None => !begins(s@, p@),
        },
{
    let v = chars_of(s);
    let w = chars_of(p);
    if v.len() >= w.len() && occurs(&v, 0, &w) {
        Some(text_of(&v, w.len(), v.len()))
    } else {
        None
    }
}

/// What comes before the suffix `p` of `s`, if it ends with it.
pub fn strip_suffix(s: &str, p: &str) -> (r: Option<String>)
    ensures
        match r {
            Some(t) => ends(s@, p@) && t@ == s@.subrange(0, s@.len() - p@.len()),
            None => !ends(s@, p@),
        },
{
    let v = chars_of(s);
    let w = chars_of(p);
    if v.len() >= w.len() && occurs(&v, v.len() - w.len(), &w) {
        Some(text_of(&v, 0, v.len() - w.len()))
    } else {
        None
    }
}

/// Where the first `c` in `s` is, from the `i`th character on; the length of `s` when there is
/// none.
pub open spec fn find_from(s: Seq<char>, c: char, i: int) -> int
    decreases s.len() - i,
{
    if i < 0 || i >= s.len() {
        s.len() as int
    } else if s[i] == c {
        i
    } else {
        find_from(s, c, i + 1)
    }
}

/// What comes before and after the first `c` in `s`, if there is one.
pub fn split_once(s: &str, c: char) -> (r: Option<(String, String)>)
    ensures
        ({
            let k = find_from(s@, c, 0);
            match r {
                Some((a, b)) => k < s@.len() && a@ == s@.subrange(0, k) && b@ == s@.subrange(
                    k + 1,
                    s@.len() as int,
                ),
                None => k == s@.len(),
            }
        }),
{
    let v = chars_of(s);
    let n = v.len();
    let mut i: usize = 0;
    while i < n && v[i] != c
        invariant
            i <= n,
            n == v@.len(),
            v@ == s@,
            find_from(s@, c, 0) == find_from(s@, c, i as int),
        decreases n - i,
    {
        i += 1;
    }
    if i < n {
        Some((text_of(&v, 0, i), text_of(&v, i + 1, n)))
    } else {
        None
    }
}

} // verus!
