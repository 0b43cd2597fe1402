//! Detail-row quantities as exact fixed-point numbers: a decimal string is
//! parsed into thousandths of a unit, summed without rounding, and rendered
//! back with trailing zeros trimmed.  A malformed quantity is a hard error,
//! fatal to the document being built.

use vstd::prelude::*;

use crate::textfmt::dec_str_nat;
use crate::textfmt::digit_char;
use crate::textfmt::digit_to_str;
use crate::textfmt::u64_to_string;

verus! {

/// Why a quantity string was rejected.
#[derive(Clone, Copy, Debug, PartialEq, Eq, Structural)]
pub enum QtyError {
    Malformed,
}

/// The numeric value of a decimal digit character, or -1 for any other
/// character.
pub open spec fn digit_val(c: char) -> int {
    if c == '0' {
        0
    } else if c == '1' {
        1
    } else if c == '2' {
        2
    } else if c == '3' {
        3
    } else if c == '4' {
        4
    } else if c == '5' {
        5
    } else if c == '6' {
        6
    } else if c == '7' {
        7
    } else if c == '8' {
        8
    } else if c == '9' {
        9
    } else {
        -1
    }
}

pub open spec fn is_digit_char(c: char) -> bool {
    digit_val(c) >= 0
}

pub open spec fn all_digits(s: Seq<char>) -> bool {
    forall|i: int| 0 <= i < s.len() ==> is_digit_char(#[trigger] s[i])
}

/// The value of a digit string read most significant digit first.
pub open spec fn digits_val(s: Seq<char>) -> int
    decreases s.len(),
{
    if s.len() == 0 {
        0int
    } else {
        digits_val(s.drop_last()) * 10 + digit_val(s.last())
    }
}

/// How many leading characters of `s` are digits.
pub open spec fn digits_prefix_len(s: Seq<char>) -> int
    decreases s.len(),
{
    if s.len() == 0 || !is_digit_char(s[0]) {
        0int
    } else {
        1 + digits_prefix_len(s.drop_first())
    }
}

pub open spec fn pow10(e: int) -> int
    decreases e,
{
    if e <= 0 {
        1int
    } else {
        10 * pow10(e - 1)
    }
}

/// The quantity string without its optional leading minus sign.
pub open spec fn qty_body(s: Seq<char>) -> Seq<char> {
    if s.len() > 0 && s[0] == '-' {
        s.drop_first()
    } else {
        s
    }
}

pub open spec fn qty_negative(s: Seq<char>) -> bool {
    s.len() > 0 && s[0] == '-'
}

/// The accepted quantity grammar: an optional minus sign, one to nine
/// integer digits, optionally a decimal point followed by one to three
/// fraction digits.
pub open spec fn valid_qty(s: Seq<char>) -> bool {
    let u = qty_body(s);
    let k = digits_prefix_len(u);
    &&& 1 <= k <= 9
    &&& (k == u.len() || (u.len() >= k + 2 && u[k] == '.' && u.len() - k - 1 <= 3 && all_digits(
        u.skip(k + 1),
    )))
}

/// The value of a valid quantity string in thousandths of a unit.
pub open spec fn qty_milli(s: Seq<char>) -> int {
    let u = qty_body(s);
    let k = digits_prefix_len(u);
    let int_part = digits_val(u.take(k));
    let frac = if k == u.len() {
        0int
    } else {
        digits_val(u.skip(k + 1)) * pow10(3 - (u.len() - k - 1))
    };
    let mag = int_part * 1000 + frac;
    if qty_negative(s) {
        -mag
    } else {
        mag
    }
}

/// A digit run's chars are digits, and a character position right at the
/// run's end (if any) is not a digit.
pub proof fn lemma_digits_prefix_from_scan(t: Seq<char>, j: int)
    requires
        0 <= j <= t.len(),
        forall|x: int| 0 <= x < j ==> is_digit_char(#[trigger] t[x]),
        j == t.len() || !is_digit_char(t[j]),
    ensures
        digits_prefix_len(t) == j,
    decreases j,
{
    if j == 0 {
    } else {
        assert(is_digit_char(t[0]));
        lemma_digits_prefix_from_scan(t.drop_first(), j - 1);
    }
}

/// Every character inside the digit run is a digit.
pub proof fn lemma_digits_prefix_all_digits(t: Seq<char>, x: int)
    requires
        0 <= x < digits_prefix_len(t),
    ensures
        is_digit_char(t[x]),
    decreases x,
{
    lemma_digits_prefix_len_le(t);
    assert(digits_prefix_len(t) > 0);
    assert(t.len() > 0 && is_digit_char(t[0]));
    if x > 0 {
        assert(digits_prefix_len(t) == 1 + digits_prefix_len(t.drop_first()));
        lemma_digits_prefix_all_digits(t.drop_first(), x - 1);
        assert(t.drop_first()[x - 1] == t[x]);
    }
}

pub proof fn lemma_digits_prefix_len_le(t: Seq<char>)
    ensures
        0 <= digits_prefix_len(t) <= t.len(),
    decreases t.len(),
{
    if t.len() > 0 && is_digit_char(t[0]) {
        lemma_digits_prefix_len_le(t.drop_first());
    }
}

pub proof fn lemma_pow10_monotone(a: int, b: int)
    requires
        a <= b,
    ensures
        1 <= pow10(a) <= pow10(b),
    decreases b - a, b,
{
    if a < b {
        lemma_pow10_monotone(a, b - 1);
    } else if a == b && a > 0 {
        lemma_pow10_monotone(a - 1, b - 1);
    }
}

/// A digit string's value is bounded by ten to its length.
pub proof fn lemma_digits_val_bound(s: Seq<char>)
    requires
        all_digits(s),
    ensures
        0 <= digits_val(s) < pow10(s.len() as int),
    decreases s.len(),
{
    if s.len() > 0 {
        assert(all_digits(s.drop_last())) by {
            assert(forall|i: int|
                0 <= i < s.len() - 1 ==> s.drop_last()[i] == #[trigger] s[i]);
        }
        lemma_digits_val_bound(s.drop_last());
        assert(0 <= digit_val(s.last()) <= 9);
        assert(pow10(s.len() as int) == 10 * pow10(s.len() as int - 1));
    }
}

/// Decides whether `c` is a decimal digit and yields its value.
fn digit_of(c: char) -> (r: Option<u64>)
    ensures
        r is Some <==> is_digit_char(c),
        r is Some ==> r->0 == digit_val(c),
{
    if c == '0' {
        Option::Some(0)
    } else if c == '1' {
        Option::Some(1)
    } else if c == '2' {
        Option::Some(2)
    } else if c == '3' {
        Option::Some(3)
    } else if c == '4' {
        Option::Some(4)
    } else if c == '5' {
        Option::Some(5)
    } else if c == '6' {
        Option::Some(6)
    } else if c == '7' {
        Option::Some(7)
    } else if c == '8' {
        Option::Some(8)
    } else if c == '9' {
        Option::Some(9)
    } else {
        Option::None
    }
}

/// The length of the digit run of `s` starting at `start`.
fn digits_run(s: &str, start: usize) -> (k: usize)
    requires
        start <= s@.len(),
    ensures
        k == digits_prefix_len(s@.skip(start as int)),
        start + k <= s@.len(),
{
    let n = s.unicode_len();
    let mut i: usize = start;
    while i < n && digit_of(s.get_char(i)).is_some()
        invariant
            start <= i <= n,
            n == s@.len(),
            forall|x: int| start <= x < i ==> is_digit_char(#[trigger] s@[x]),
        decreases n - i,
    {
        i += 1;
    }
    proof {
        let t = s@.skip(start as int);
        assert(forall|x: int|
            0 <= x < i - start ==> is_digit_char(#[trigger] t[x]) && t[x] == s@[start + x]);
        if i < n {
            assert(t[i - start] == s@[i as int]);
        }
        lemma_digits_prefix_from_scan(t, i - start);
    }
    i - start
}

/// The value of the digit run `s[start .. start + k]`.
fn digits_run_value(s: &str, start: usize, k: usize) -> (v: u64)
    requires
        start + k <= s@.len(),
        start + k <= usize::MAX,
        k <= 9,
        forall|x: int| start <= x < start + k ==> is_digit_char(#[trigger] s@[x]),
    ensures
        v == digits_val(s@.subrange(start as int, start as int + k as int)),
        v < pow10(k as int),
{
    let ghost full = s@.subrange(start as int, start as int + k as int);
    let mut v: u64 = 0;
    let mut t: usize = 0;
    while t < k
        invariant
            t <= k,
            k <= 9,
            start + k <= s@.len(),
            start + k <= usize::MAX,
            forall|x: int| start <= x < start + k ==> is_digit_char(#[trigger] s@[x]),
            full == s@.subrange(start as int, start as int + k as int),
            v == digits_val(full.take(t as int)),
            v < pow10(t as int),
        decreases k - t,
    {
        let c = s.get_char(start + t);
        let d = match digit_of(c) {
            Option::Some(d) => d,
            Option::None => 0,
        };
        proof {
            assert(full[t as int] == s@[start + t]);
            assert(full.take(t as int + 1).drop_last() =~= full.take(t as int));
            assert(full.take(t as int + 1).last() == full[t as int]);
            lemma_pow10_monotone(t as int + 1, 9);
            assert(pow10(9) == 1000000000) by {
                reveal_with_fuel(pow10, 10);
            }
        }
        v = v * 10 + d;
        t += 1;
    }
    proof {
        assert(full.take(k as int) =~= full);
    }
    v
}

/// Parses a quantity string to thousandths of a unit: an optional minus
/// sign, up to nine integer digits, optionally a point and up to three
/// fraction digits.  Returns `Err` exactly on strings outside that grammar.
pub fn parse_qty_milli(s: &str) -> (r: Result<i64, QtyError>)
    ensures
        r is Ok <==> valid_qty(s@),
        r is Ok ==> r->Ok_0 == qty_milli(s@),
        r is Ok ==> -1000000000000i64 < r->Ok_0 < 1000000000000i64,
{
    let n = s.unicode_len();
    let neg = n > 0 && s.get_char(0) == '-';
    let start: usize = if neg {
        1
    } else {
        0
    };
    let ghost u = qty_body(s@);
    proof {
        assert(u =~= s@.skip(start as int));
    }
    let k = digits_run(s, start);
    if k == 0 || k > 9 {
        return Result::Err(QtyError::Malformed);
    }
    proof {
        assert forall|x: int| start <= x < start + k implies is_digit_char(#[trigger] s@[x]) by {
            lemma_digits_prefix_all_digits(u, x - start);
        }
    }
    let int_val = digits_run_value(s, start, k);
    proof {
        assert(u.take(k as int) =~= s@.subrange(start as int, start as int + k as int));
        lemma_pow10_monotone(k as int, 9);
        assert(pow10(9) == 1000000000) by {
            reveal_with_fuel(pow10, 10);
        }
    }
    let i = start + k;
    let mut frac_val: u64 = 0;
    let mut frac_len: usize = 0;
    if i < n {
        let c = s.get_char(i);
        if c != '.' {
            proof {
                assert(u[k as int] == s@[i as int]);
            }
            return Result::Err(QtyError::Malformed);
        }
        let k2 = digits_run(s, i + 1);
        proof {
            assert(u.skip(k as int + 1) =~= s@.skip(i as int + 1));
            lemma_digits_prefix_len_le(s@.skip(i as int + 1));
        }
        if k2 == 0 || k2 > 3 || i + 1 + k2 != n {
            proof {
                let rest = u.skip(k as int + 1);
                if valid_qty(s@) {
                    assert(all_digits(rest) && rest.len() <= 3 && u.len() >= k + 2);
                    lemma_digits_prefix_from_scan(rest, rest.len() as int);
                }
            }
            return Result::Err(QtyError::Malformed);
        }
        proof {
            assert forall|x: int| i + 1 <= x < i + 1 + k2 implies is_digit_char(
                #[trigger] s@[x],
            ) by {
                lemma_digits_prefix_all_digits(s@.skip(i as int + 1), x - i - 1);
            }
        }
        frac_val = digits_run_value(s, i + 1, k2);
        frac_len = k2;
        proof {
            let rest = u.skip(k as int + 1);
            assert(rest =~= s@.subrange(i as int + 1, i as int + 1 + k2 as int));
            assert forall|x: int| 0 <= x < rest.len() implies is_digit_char(
                #[trigger] rest[x],
            ) by {
                assert(rest[x] == s@[i + 1 + x]);
            }
            lemma_digits_val_bound(rest);
            lemma_pow10_monotone(rest.len() as int, 3);
            assert(pow10(3) == 1000) by {
                reveal_with_fuel(pow10, 4);
            }
        }
    }
    let scale: u64 = if frac_len == 0 {
        0
    } else if frac_len == 1 {
        100
    } else if frac_len == 2 {
        10
    } else {
        1
    };
    proof {
        if frac_len > 0 {
            assert(pow10(2) == 100 && pow10(1) == 10 && pow10(0) == 1) by {
                reveal_with_fuel(pow10, 4);
            }
        }
    }
    let mag: u64 = int_val * 1000 + frac_val * scale;
    let r: i64 = if neg {
        -(mag as i64)
    } else {
        mag as i64
    };
    Result::Ok(r)
}

/// The trimmed fraction digits of a thousandths value: three, two or one
/// digit, trailing zeros dropped.
pub open spec fn frac_digits_str(f: int) -> Seq<char> {
    if f % 10 != 0 {
        seq![digit_char(f / 100), digit_char((f / 10) % 10), digit_char(f % 10)]
    } else if f % 100 != 0 {
        seq![digit_char(f / 100), digit_char((f / 10) % 10)]
    } else {
        seq![digit_char(f / 100)]
    }
}

/// The decimal rendering of a non-negative thousandths value: the whole
/// part, then a point and the trimmed fraction digits when the value is not
/// whole.
pub open spec fn milli_str(v: int) -> Seq<char> {
    if v % 1000 == 0 {
        dec_str_nat(v / 1000)
    } else {
        dec_str_nat(v / 1000) + seq!['.'] + frac_digits_str(v % 1000)
    }
}

/// Renders a non-negative thousandths value as a decimal string.
pub fn milli_to_string(v: i64) -> (r: String)
    requires
        v >= 0,
    ensures
        r@ == milli_str(v as int),
{
    let whole = v / 1000;
    let frac = v % 1000;
    let mut out = u64_to_string(whole as u64);
    if frac != 0 {
        out.append(".");
        proof {
            reveal_strlit(".");
            assert("."@ =~= seq!['.']);
        }
        let d1 = (frac / 100) as u64;
        let d2 = ((frac / 10) % 10) as u64;
        let d3 = (frac % 10) as u64;
        if d3 != 0 {
            out.append(digit_to_str(d1));
            out.append(digit_to_str(d2));
            out.append(digit_to_str(d3));
            proof {
                assert(out@ =~= milli_str(v as int));
            }
        } else if d2 != 0 {
            out.append(digit_to_str(d1));
            out.append(digit_to_str(d2));
            proof {
                assert(out@ =~= milli_str(v as int));
            }
        } else {
            out.append(digit_to_str(d1));
            proof {
                assert(out@ =~= milli_str(v as int));
            }
        }
    }
    out
}

} // verus!
