//! Decimal rendering of the integers that appear in an output line.

use vstd::prelude::*;

verus! {

/// The character for one decimal digit.
pub open spec fn digit_char(d: int) -> char
    recommends
        0 <= d <= 9,
{
    ((d + 48) as u8) as char
}

/// The decimal digits of a non-negative integer, most significant first.
pub open spec fn dec_digits(n: int) -> Seq<char>
    recommends
        n >= 0,
    decreases n,
{
    if n < 10 {
        seq![digit_char(n)]
    } else {
        dec_digits(n / 10).push(digit_char(n % 10))
    }
}

/// The decimal rendering of a signed integer: a minus sign before the digits
/// of the absolute value.
pub open spec fn dec_int(n: int) -> Seq<char> {
    if n >= 0 {
        dec_digits(n)
    } else {
        seq!['-'] + dec_digits(-n)
    }
}

/// Renders an unsigned integer in decimal.
pub fn u64_str(n: u64) -> (r: String)
    ensures
        r@ == dec_digits(n as int),
{
    let mut digits: Vec<char> = Vec::new();
    let mut m: u64 = n;
    loop
        invariant_except_break
            dec_digits(n as int) == dec_digits(m as int) + digits@.reverse(),
        ensures
            dec_digits(n as int) == digits@.reverse(),
        decreases m,
    {
        let d: u64 = m % 10;
        digits.push((d as u8 + 48) as char);
        proof {
            assert(digits@.reverse() =~= seq![digit_char(d as int)] + digits@.drop_last().reverse());
        }
        m = m / 10;
        if m == 0 {
            break;
        }
    }
    let mut r = String::new();
    let mut i: usize = digits.len();
    proof {
        assert(digits@.skip(digits@.len() as int) =~= Seq::<char>::empty());
    }
    while i > 0
        invariant
            i <= digits@.len(),
            r@ == digits@.skip(i as int).reverse(),
        decreases i,
    {
        i = i - 1;
        push_char(&mut r, digits[i]);
        proof {
            assert(digits@.skip(i as int).reverse() =~= digits@.skip(i as int + 1).reverse().push(
                digits@[i as int],
            ));
        }
    }
    proof {
        assert(digits@.skip(0) =~= digits@);
        assert(dec_digits(n as int) =~= digits@.reverse());
    }
    r
}

/// Renders a signed integer in decimal.
pub fn i64_str(n: i64) -> (r: String)
    requires
        n > i64::MIN,
    ensures
        r@ == dec_int(n as int),
{
    if n >= 0 {
        u64_str(n as u64)
    } else {
        let mut r = String::new();
        push_char(&mut r, '-');
        let tail = u64_str((-n) as u64);
        r.append(tail.as_str());
        proof {
            assert(r@ =~= dec_int(n as int));
        }
        r
    }
}

/// Relies on String::push: appends one character at the end.
#[verifier::external_body]
pub(crate) fn push_char(s: &mut String, c: char)
    ensures
        final(s)@ == old(s)@.push(c),
{
    s.push(c);
}

} // verus!
