//! Decimal text for integers, specified character by character.

use vstd::prelude::*;

verus! {

/// The digit character for a value below ten.
pub open spec fn digit_char_of(d: int) -> char {
    if d == 0 {
        '0'
    } else if d == 1 {
        '1'
    } else if d == 2 {
        '2'
    } else if d == 3 {
        '3'
    } else if d == 4 {
        '4'
    } else if d == 5 {
        '5'
    } else if d == 6 {
        '6'
    } else if d == 7 {
        '7'
    } else if d == 8 {
        '8'
    } else {
        '9'
    }
}

/// The decimal digits of a nonnegative value, most significant first.
pub open spec fn dec_digits(n: int) -> Seq<char>
    decreases n,
{
    if n < 10 {
        seq![digit_char_of(n)]
    } else {
        dec_digits(n / 10) + seq![digit_char_of(n % 10)]
    }
}

/// The decimal text of a 32-bit integer, with a leading minus sign for
/// negative values.
pub open spec fn i32_text(n: i32) -> Seq<char> {
    if n < 0 {
        seq!['-'] + dec_digits(-(n as int))
    } else {
        dec_digits(n as int)
    }
}

/// The decimal text of an unsigned 64-bit value.
pub open spec fn u64_text(n: u64) -> Seq<char> {
    dec_digits(n as int)
}

fn digit_to_char(d: u64) -> (r: char)
    requires
        d <= 9,
    ensures
        r == digit_char_of(d as int),
{
    match d {
        0 => '0',
        1 => '1',
        2 => '2',
        3 => '3',
        4 => '4',
        5 => '5',
        6 => '6',
        7 => '7',
        8 => '8',
        _ => '9',
    }
}

/// Appends the decimal digits of `n`.
fn push_dec_digits(out: &mut Vec<char>, n: u64)
    ensures
        final(out)@ == old(out)@ + dec_digits(n as int),
    decreases n,
{
    if n < 10 {
        out.push(digit_to_char(n));
        proof {
            assert(out@ =~= old(out)@ + dec_digits(n as int));
        }
    } else {
        push_dec_digits(out, n / 10);
        out.push(digit_to_char(n % 10));
        proof {
            assert(out@ =~= old(out)@ + dec_digits(n as int));
        }
    }
}

/// The decimal text of a 32-bit integer.
pub fn i32_text_exec(n: i32) -> (r: Vec<char>)
    ensures
        r@ == i32_text(n),
{
    let mut out: Vec<char> = Vec::new();
    if n < 0 {
        out.push('-');
        let m: u64 = (-(n as i64)) as u64;
        push_dec_digits(&mut out, m);
        proof {
            assert(out@ =~= i32_text(n));
        }
    } else {
        push_dec_digits(&mut out, n as u64);
        proof {
            assert(out@ =~= i32_text(n));
        }
    }
    out
}

/// The decimal text of an unsigned 64-bit value.
pub fn u64_text_exec(n: u64) -> (r: Vec<char>)
    ensures
        r@ == u64_text(n),
{
    let mut out: Vec<char> = Vec::new();
    push_dec_digits(&mut out, n);
    proof {
        assert(out@ =~= u64_text(n));
    }
    out
}

} // verus!
