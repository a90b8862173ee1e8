//! Scanning of text lines: character classes, runs of a class, literals and
//! numbers.
use vstd::prelude::*;
use vstd::string::StrSliceExecFns;

verus! {

/// The classes of characters that the line grammars are written in.
#[derive(Clone, Copy, PartialEq, Eq, Structural)]
pub enum CharClass {
    /// ASCII white space.
    Space,
    /// ASCII letters and digits.
    Alnum,
    /// Hexadecimal digits of either case.
    Hex,
    /// Decimal digits.
    Digit,
    /// ASCII letters, digits and the underscore.
    Word,
}

pub open spec fn is_space(c: char) -> bool {
    c == ' ' || c == '\t' || c == '\n' || c == '\r' || c == '\u{0B}' || c == '\u{0C}'
}

pub open spec fn is_digit(c: char) -> bool {
    '0' <= c && c <= '9'
}

pub open spec fn is_alpha(c: char) -> bool {
    ('a' <= c && c <= 'z') || ('A' <= c && c <= 'Z')
}

pub open spec fn is_hex(c: char) -> bool {
    is_digit(c) || ('a' <= c && c <= 'f') || ('A' <= c && c <= 'F')
}

pub open spec fn in_class(c: char, k: CharClass) -> bool {
    match k {
        CharClass::Space => is_space(c),
        CharClass::Alnum => is_digit(c) || is_alpha(c),
        CharClass::Hex => is_hex(c),
        CharClass::Digit => is_digit(c),
        CharClass::Word => is_digit(c) || is_alpha(c) || c == '_',
    }
}

/// Whether `c` belongs to class `k`.
pub fn class_has(c: char, k: CharClass) -> (r: bool)
    ensures
        r == in_class(c, k),
{
    let digit = '0' <= c && c <= '9';
    let alpha = ('a' <= c && c <= 'z') || ('A' <= c && c <= 'Z');
    match k {
        CharClass::Space => c == ' ' || c == '\t' || c == '\n' || c == '\r' || c == '\u{0B}' || c
            == '\u{0C}',
        CharClass::Alnum => digit || alpha,
        CharClass::Hex => digit || ('a' <= c && c <= 'f') || ('A' <= c && c <= 'F'),
        CharClass::Digit => digit,
        CharClass::Word => digit || alpha || c == '_',
    }
}

/// The end of the longest run of class `k` that starts at `i`.
pub open spec fn span(s: Seq<char>, i: int, k: CharClass) -> int
    decreases s.len() - i,
{
    if 0 <= i < s.len() && in_class(s[i], k) {
        span(s, i + 1, k)
    } else {
        i
    }
}

/// The end of the run of class `k` that starts at `i`.
pub fn scan(s: &Vec<char>, i: usize, k: CharClass) -> (j: usize)
    requires
        i <= s@.len(),
    ensures
        j == span(s@, i as int, k),
        i <= j <= s@.len(),
{
    let mut j: usize = i;
    while j < s.len() && class_has(s[j], k)
        invariant
            i <= j <= s@.len(),
            span(s@, i as int, k) == span(s@, j as int, k),
        decreases s@.len() - j,
    {
        j += 1;
    }
    j
}

/// Whether the characters of `t` stand in `s` from `i` on.
pub open spec fn lit_at(s: Seq<char>, i: int, t: Seq<char>) -> bool {
    0 <= i && i + t.len() <= s.len() && s.subrange(i, i + t.len()) == t
}

/// Whether the characters of `t` stand in `s` from `i` on.
pub fn has_lit(s: &Vec<char>, i: usize, t: &str) -> (r: bool)
    requires
        i <= s@.len(),
    ensures
        r == lit_at(s@, i as int, t@),
{
    let n: usize = t.unicode_len();
    if n > s.len() - i {
        return false;
    }
    let mut m: usize = 0;
    while m < n
        invariant
            n == t@.len(),
            i + n <= s.len(),
            m <= n,
            forall|q: int| 0 <= q < m ==> s@[i + q] == t@[q],
        decreases n - m,
    {
        if s[i + m] != t.get_char(m) {
            return false;
        }
        m += 1;
    }
    assert(s@.subrange(i as int, i + n) =~= t@);
    true
}

/// Whether the whole of `s` is `t`.
pub fn is_line(s: &Vec<char>, t: &str) -> (r: bool)
    ensures
        r == (s@ == t@),
{
    let r = has_lit(s, 0, t) && s.len() == t.unicode_len();
    proof {
        if s@.len() == t@.len() {
            assert(s@.subrange(0, s@.len() as int) =~= s@);
        }
    }
    r
}

/// Whether `s` ends with the character `c`.
pub fn ends_with_char(s: &Vec<char>, c: char) -> (r: bool)
    ensures
        r == (s@.len() > 0 && s@.last() == c),
{
    s.len() > 0 && s[s.len() - 1] == c
}

/// The characters of a string.
pub fn chars_of(s: &str) -> (r: Vec<char>)
    ensures
        r@ == s@,
{
    let n: usize = s.unicode_len();
    let mut r: Vec<char> = Vec::new();
    let mut m: usize = 0;
    while m < n
        invariant
            n == s@.len(),
            m <= n,
            r@ == s@.subrange(0, m as int),
        decreases n - m,
    {
        r.push(s.get_char(m));
        m += 1;
        assert(r@ =~= s@.subrange(0, m as int));
    }
    assert(r@ =~= s@);
    r
}

/// The characters of `s` from `a` up to `b`, as a string.
pub fn substring(s: &str, a: usize, b: usize) -> (r: String)
    requires
        a <= b <= s@.len(),
    ensures
        r@ == s@.subrange(a as int, b as int),
{
    s.substring_char(a, b).to_string()
}

/// The value of one digit, decimal or hexadecimal.
pub open spec fn digit_of(c: char) -> nat {
    if '0' <= c && c <= '9' {
        (c as u32 - '0' as u32) as nat
    } else if 'a' <= c && c <= 'f' {
        (c as u32 - 'a' as u32 + 10) as nat
    } else if 'A' <= c && c <= 'F' {
        (c as u32 - 'A' as u32 + 10) as nat
    } else {
        0
    }
}

/// The number that the digits `s` write in base `base`.
pub open spec fn value_in_base(s: Seq<char>, base: nat) -> nat
    decreases s.len(),
{
    if s.len() == 0 {
        0
    } else {
        value_in_base(s.drop_last(), base) * base + digit_of(s.last())
    }
}

pub open spec fn min_nat(a: nat, b: nat) -> nat {
    if a <= b {
        a
    } else {
        b
    }
}

fn digit_value(c: char) -> (r: u64)
    ensures
        r == digit_of(c),
        r < 16,
{
    if '0' <= c && c <= '9' {
        (c as u32 - '0' as u32) as u64
    } else if 'a' <= c && c <= 'f' {
        (c as u32 - 'a' as u32 + 10) as u64
    } else if 'A' <= c && c <= 'F' {
        (c as u32 - 'A' as u32 + 10) as u64
    } else {
        0
    }
}

/// The number that `s[a..b]` writes in base `base`, or `cap` where it is larger.
pub fn number_value(s: &Vec<char>, a: usize, b: usize, base: u64, cap: u64) -> (r: u64)
    requires
        a <= b <= s@.len(),
        1 <= base <= 16,
        cap <= 0x1_0000_0000,
    ensures
        r == min_nat(value_in_base(s@.subrange(a as int, b as int), base as nat), cap as nat),
{
    let mut acc: u64 = 0;
    let mut j: usize = a;
    while j < b
        invariant
            a <= j <= b <= s@.len(),
            1 <= base <= 16,
            cap <= 0x1_0000_0000,
            acc == min_nat(value_in_base(s@.subrange(a as int, j as int), base as nat), cap as nat),
        decreases b - j,
    {
        let ghost prev = s@.subrange(a as int, j as int);
        let ghost next = s@.subrange(a as int, j + 1);
        assert(next.drop_last() =~= prev);
        let d = digit_value(s[j]);
        let ghost v = value_in_base(prev, base as nat);
        assert(value_in_base(next, base as nat) == v * base + d);
        if acc >= cap {
            assert(v * base >= v) by (nonlinear_arith)
                requires
                    base >= 1,
            ;
            acc = cap;
        } else {
            assert(acc * base + d <= 0x1_0000_0000 * 16 + 16) by (nonlinear_arith)
                requires
                    acc < 0x1_0000_0000,
                    base <= 16,
                    d < 16,
            ;
            let t = acc * base + d;
            acc = if t < cap {
                t
            } else {
                cap
            };
        }
        j += 1;
    }
    acc
}

/// Thousandths of the decimal number with integer digits `ip` and fraction
/// digits `fp`, rounded half up.
pub open spec fn thousandths(ip: Seq<char>, fp: Seq<char>) -> nat {
    value_in_base(ip, 10) * 1000 + frac_digit(fp, 0) * 100 + frac_digit(fp, 1) * 10 + frac_digit(
        fp,
        2,
    ) + if frac_digit(fp, 3) >= 5 {
        1nat
    } else {
        0nat
    }
}

pub open spec fn frac_digit(fp: Seq<char>, k: int) -> nat {
    if 0 <= k < fp.len() {
        digit_of(fp[k])
    } else {
        0
    }
}

/// The largest value a saturated decimal takes.
pub const DECIMAL_CAP: u64 = 0xFFFF_FFFF;

/// A decimal number `d.d` that starts at `i`: the index after it, and its
/// thousandths, rounded half up and saturated at [`DECIMAL_CAP`].
pub open spec fn decimal_at(s: Seq<char>, i: int) -> Option<(int, nat)> {
    let e = span(s, i, CharClass::Digit);
    let f = span(s, e + 1, CharClass::Digit);
    if e > i && e < s.len() && s[e] == '.' && f > e + 1 {
        Some(
            (
                f,
                min_nat(
                    thousandths(s.subrange(i, e), s.subrange(e + 1, f)),
                    DECIMAL_CAP as nat,
                ),
            ),
        )
    } else {
        None
    }
}

fn frac_digit_value(s: &Vec<char>, a: usize, b: usize, k: usize) -> (r: u64)
    requires
        a <= b <= s@.len(),
        k < 4,
    ensures
        r == frac_digit(s@.subrange(a as int, b as int), k as int),
        r < 16,
{
    if k < b - a {
        digit_value(s[a + k])
    } else {
        0
    }
}

/// Reads a decimal number `d.d` at `i`; see [`decimal_at`].
pub fn read_decimal(s: &Vec<char>, i: usize) -> (r: Option<(usize, u64)>)
    requires
        i <= s@.len(),
    ensures
        match r {
            Some((j, v)) => decimal_at(s@, i as int) == Some((j as int, v as nat)) && j <= s@.len(),
            None => decimal_at(s@, i as int) is None,
        },
{
    let e = scan(s, i, CharClass::Digit);
    if !(e > i && e < s.len() && s[e] == '.') {
        return None;
    }
    let f = scan(s, e + 1, CharClass::Digit);
    if f <= e + 1 {
        return None;
    }
    let ip = number_value(s, i, e, 10, DECIMAL_CAP);
    let frac = frac_digit_value(s, e + 1, f, 0) * 100 + frac_digit_value(s, e + 1, f, 1) * 10
        + frac_digit_value(s, e + 1, f, 2) + if frac_digit_value(s, e + 1, f, 3) >= 5 {
        1
    } else {
        0
    };
    let ghost exact = thousandths(s@.subrange(i as int, e as int), s@.subrange(e + 1, f as int));
    let v: u64 = if ip >= DECIMAL_CAP {
        DECIMAL_CAP
    } else {
        let t = ip * 1000 + frac;
        if t < DECIMAL_CAP {
            t
        } else {
            DECIMAL_CAP
        }
    };
    assert(v == min_nat(exact, DECIMAL_CAP as nat));
    Some((f, v))
}

} // verus!
