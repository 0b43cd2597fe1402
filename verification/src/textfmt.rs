//! Text building blocks: decimal rendering of integers, the comma-separated
//! SKU list, and the fixed-point (thousandth-unit) quantity format used by
//! the detail listings in place of binary floating point.

use vstd::prelude::*;

verus! {

/// The decimal digit character for `d` (0 through 9).
pub open spec fn digit_char(d: int) -> char {
    if d == 0 {
        '0'
    } else if d == 1 {
        '1'
    } else if d == 2 {
        '2'
    } else if d == 3 {
        '3'
    } else if d == 4 {
        '4'
    } else if d == 5 {
        '5'
    } else if d == 6 {
        '6'
    } else if d == 7 {
        '7'
    } else if d == 8 {
        '8'
    } else {
        '9'
    }
}

/// The decimal rendering of a non-negative integer, most significant digit
/// first, with no leading zeros (except for zero itself).
pub open spec fn dec_str_nat(n: int) -> Seq<char>
    decreases n,
{
    if n < 10 {
        seq![digit_char(n)]
    } else {
        dec_str_nat(n / 10).push(digit_char(n % 10))
    }
}

/// The decimal rendering of an integer: a leading minus sign when negative.
pub open spec fn dec_str_int(n: int) -> Seq<char> {
    if n < 0 {
        seq!['-'] + dec_str_nat(-n)
    } else {
        dec_str_nat(n)
    }
}

/// A one-character string slice holding the digit `d`.
pub fn digit_to_str(d: u64) -> (r: &'static str)
    requires
        d < 10,
    ensures
        r@ == seq![digit_char(d as int)],
{
    if d == 0 {
        proof {
            reveal_strlit("0");
            assert("0"@ =~= seq![digit_char(0)]);
        }
        "0"
    } else if d == 1 {
        proof {
            reveal_strlit("1");
            assert("1"@ =~= seq![digit_char(1)]);
        }
        "1"
    } else if d == 2 {
        proof {
            reveal_strlit("2");
            assert("2"@ =~= seq![digit_char(2)]);
        }
        "2"
    } else if d == 3 {
        proof {
            reveal_strlit("3");
            assert("3"@ =~= seq![digit_char(3)]);
        }
        "3"
    } else if d == 4 {
        proof {
            reveal_strlit("4");
            assert("4"@ =~= seq![digit_char(4)]);
        }
        "4"
    } else if d == 5 {
        proof {
            reveal_strlit("5");
            assert("5"@ =~= seq![digit_char(5)]);
        }
        "5"
    } else if d == 6 {
        proof {
            reveal_strlit("6");
            assert("6"@ =~= seq![digit_char(6)]);
        }
        "6"
    } else if d == 7 {
        proof {
            reveal_strlit("7");
            assert("7"@ =~= seq![digit_char(7)]);
        }
        "7"
    } else if d == 8 {
        proof {
            reveal_strlit("8");
            assert("8"@ =~= seq![digit_char(8)]);
        }
        "8"
    } else {
        proof {
            reveal_strlit("9");
            assert("9"@ =~= seq![digit_char(9)]);
        }
        "9"
    }
}

/// Renders a non-negative machine integer in decimal.
pub fn u64_to_string(n: u64) -> (r: String)
    ensures
        r@ == dec_str_nat(n as int),
    decreases n,
{
    if n < 10 {
        String::from_str(digit_to_str(n))
    } else {
        let s = u64_to_string(n / 10);
        let r = s.concat(digit_to_str(n % 10));
        proof {
            assert(dec_str_nat((n / 10) as int) + seq![digit_char((n % 10) as int)]
                =~= dec_str_nat((n / 10) as int).push(digit_char((n % 10) as int)));
        }
        r
    }
}

/// Renders a signed machine integer in decimal.
pub fn i64_to_string(n: i64) -> (r: String)
    ensures
        r@ == dec_str_int(n as int),
{
    if n >= 0 {
        u64_to_string(n as u64)
    } else {
        let m: u64 = ((-(n + 1)) as u64) + 1;
        let r = String::from_str("-").concat(u64_to_string(m).as_str());
        proof {
            reveal_strlit("-");
            assert("-"@ =~= seq!['-']);
            assert(m as int == -(n as int));
        }
        r
    }
}

/// Renders a machine word (an index or a count) in decimal.
pub fn usize_to_string(n: usize) -> (r: String)
    ensures
        r@ == dec_str_nat(n as int),
{
    u64_to_string(n as u64)
}

/// The character sequences of a list of strings, in list order.
pub open spec fn views_of(ss: Seq<String>) -> Seq<Seq<char>> {
    Seq::new(ss.len(), |i: int| ss[i]@)
}

/// Every listed item followed by the separator " ,".
pub open spec fn csv_with_seps(items: Seq<Seq<char>>) -> Seq<char>
    decreases items.len(),
{
    if items.len() == 0 {
        Seq::empty()
    } else {
        csv_with_seps(items.drop_last()) + items.last() + " ,"@
    }
}

/// The comma-separated rendering of a list of strings: every item but the
/// last is followed by " ,"; the last stands bare; an empty list renders as
/// the empty string.
pub open spec fn csv_of(items: Seq<Seq<char>>) -> Seq<char> {
    if items.len() == 0 {
        Seq::empty()
    } else {
        csv_with_seps(items.drop_last()) + items.last()
    }
}

/// Joins the strings with the separator " ," between neighbours.
pub fn display_vec_of_strings_as_csv(input: &Vec<String>) -> (r: String)
    ensures
        r@ == csv_of(views_of(input@)),
{
    let ghost dv = views_of(input@);
    let mut r = String::new();
    let mut i: usize = 0;
    while i < input.len()
        invariant
            dv == views_of(input@),
            dv.len() == input@.len(),
            i <= input@.len(),
            if i < input@.len() || i == 0 {
                r@ == csv_with_seps(dv.take(i as int))
            } else {
                r@ == csv_of(dv)
            },
        decreases input@.len() - i,
    {
        proof {
            assert(dv[i as int] == input@[i as int]@);
        }
        if i < input.len() - 1 {
            r.append(input[i].as_str());
            r.append(" ,");
            proof {
                assert(dv.take(i as int + 1).drop_last() =~= dv.take(i as int));
                assert(dv.take(i as int + 1).last() == dv[i as int]);
            }
        } else {
            r.append(input[i].as_str());
            proof {
                assert(dv.take(i as int) =~= dv.drop_last());
                assert(dv.last() == dv[i as int]);
            }
        }
        i += 1;
    }
    proof {
        if input@.len() == 0 {
            assert(r@ == csv_of(dv));
        }
    }
    r
}

} // verus!
