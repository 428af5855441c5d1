//! Text built one piece at a time: appending strings and decimal numbers to
//! a buffer of characters.

use vstd::prelude::*;

verus! {

/// Appends the characters of a string slice.
pub(crate) fn push_str(out: &mut Vec<char>, text: &str)
    ensures
        final(out)@ == old(out)@ + text@,
{
    let ghost start = out@;
    let ghost src = text@;
    for c in iter: text.chars()
        invariant
            iter.seq() == src,
            out@ == start + src.take(iter.index() as int),
    {
        proof {
            assert(src.take(iter.index() + 1) =~= src.take(iter.index() as int).push(c));
        }
        out.push(c);
        proof {
            assert(out@ =~= start + src.take(iter.index() + 1));
        }
    }
    proof {
        assert(src.take(src.len() as int) =~= src);
    }
}

/// Appends the characters of a string.
pub(crate) fn push_string(out: &mut Vec<char>, text: &String)
    ensures
        final(out)@ == old(out)@ + text@,
{
    push_str(out, text.as_str());
}

/// The decimal digit of a number below ten.
pub open spec fn digit_char(d: int) -> char {
    if d == 0 {
        '0'
    } else if d == 1 {
        '1'
    } else if d == 2 {
        '2'
    } else if d == 3 {
        '3'
    } else if d == 4 {
        '4'
    } else if d == 5 {
        '5'
    } else if d == 6 {
        '6'
    } else if d == 7 {
        '7'
    } else if d == 8 {
        '8'
    } else {
        '9'
    }
}

/// The decimal text of a natural number.
pub open spec fn nat_text(n: nat) -> Seq<char>
    decreases n,
{
    if n < 10 {
        seq![digit_char(n as int)]
    } else {
        nat_text(n / 10).push(digit_char((n % 10) as int))
    }
}

/// The decimal text of an integer, with `-` before a negative one.
pub open spec fn int_text(v: int) -> Seq<char> {
    if v < 0 {
        seq!['-'] + nat_text((-v) as nat)
    } else {
        nat_text(v as nat)
    }
}

fn digit_exec(d: u64) -> (c: char)
    requires
        d < 10,
    ensures
        c == digit_char(d as int),
{
    if d == 0 {
        '0'
    } else if d == 1 {
        '1'
    } else if d == 2 {
        '2'
    } else if d == 3 {
        '3'
    } else if d == 4 {
        '4'
    } else if d == 5 {
        '5'
    } else if d == 6 {
        '6'
    } else if d == 7 {
        '7'
    } else if d == 8 {
        '8'
    } else {
        '9'
    }
}

/// Appends the decimal text of a number.
pub(crate) fn push_nat(out: &mut Vec<char>, n: u64)
    ensures
        final(out)@ == old(out)@ + nat_text(n as nat),
    decreases n,
{
    let ghost start = out@;
    if n >= 10 {
        push_nat(out, n / 10);
    }
    out.push(digit_exec(n % 10));
    assert(out@ =~= start + nat_text(n as nat));
}

/// Appends the decimal text of a wide number.
pub(crate) fn push_nat_wide(out: &mut Vec<char>, n: u128)
    ensures
        final(out)@ == old(out)@ + nat_text(n as nat),
    decreases n,
{
    let ghost start = out@;
    if n >= 10 {
        push_nat_wide(out, n / 10);
    }
    out.push(digit_exec((n % 10) as u64));
    assert(out@ =~= start + nat_text(n as nat));
}

/// Appends the decimal text of an `i32`.
pub(crate) fn push_i32(out: &mut Vec<char>, v: i32)
    ensures
        final(out)@ == old(out)@ + int_text(v as int),
{
    let ghost start = out@;
    if v < 0 {
        out.push('-');
        let a: i64 = -(v as i64);
        push_nat(out, a as u64);
        assert(out@ =~= start + int_text(v as int));
    } else {
        push_nat(out, v as u64);
    }
}

} // verus!
