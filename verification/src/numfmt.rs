//! Decimal formatting of the integers that appear in the wire document.

use vstd::prelude::*;

verus! {

/// The decimal digit for a value below 10.
pub open spec fn dec_digit(d: nat) -> char {
    if d == 0 { '0' }
    else if d == 1 { '1' }
    else if d == 2 { '2' }
    else if d == 3 { '3' }
    else if d == 4 { '4' }
    else if d == 5 { '5' }
    else if d == 6 { '6' }
    else if d == 7 { '7' }
    else if d == 8 { '8' }
    else { '9' }
}

/// `v` in decimal, most significant digit first, no leading zeros (a single
/// `0` for zero).
pub open spec fn dec_nat(v: nat) -> Seq<char>
    decreases v,
{
    if v < 10 {
        seq![dec_digit(v)]
    } else {
        dec_nat(v / 10).push(dec_digit(v % 10))
    }
}

/// `v` in decimal with a leading minus sign when negative.
pub open spec fn dec_int(v: int) -> Seq<char> {
    if v < 0 {
        seq!['-'] + dec_nat((-v) as nat)
    } else {
        dec_nat(v as nat)
    }
}

fn dec_digit_exec(d: u8) -> (c: char)
    requires
        d < 10,
    ensures
        c == dec_digit(d as nat),
{
    match d {
        0 => '0',
        1 => '1',
        2 => '2',
        3 => '3',
        4 => '4',
        5 => '5',
        6 => '6',
        7 => '7',
        8 => '8',
        _ => '9',
    }
}

/// `v` as decimal characters.
pub fn format_u128(v: u128) -> (r: Vec<char>)
    ensures
        r@ == dec_nat(v as nat),
    decreases v,
{
    if v < 10 {
        let mut r: Vec<char> = Vec::new();
        r.push(dec_digit_exec(v as u8));
        proof {
            assert(r@ =~= dec_nat(v as nat));
        }
        r
    } else {
        let mut r = format_u128(v / 10);
        r.push(dec_digit_exec((v % 10) as u8));
        r
    }
}

/// `v` as decimal characters.
pub fn format_u64(v: u64) -> (r: Vec<char>)
    ensures
        r@ == dec_nat(v as nat),
{
    format_u128(v as u128)
}

/// `v` as decimal characters, with a leading minus sign when negative.
pub fn format_i64(v: i64) -> (r: Vec<char>)
    ensures
        r@ == dec_int(v as int),
{
    if v >= 0 {
        format_u128(v as u128)
    } else {
        let m: u128 = (-(v as i128)) as u128;
        let mut r: Vec<char> = Vec::new();
        r.push('-');
        let digits = format_u128(m);
        let mut i: usize = 0;
        let n: usize = digits.len();
        proof {
            assert(r@ =~= seq!['-'] + digits@.take(0));
        }
        while i < n
            invariant
                n == digits@.len(),
                i <= n,
                r@ == seq!['-'] + digits@.take(i as int),
            decreases n - i,
        {
            r.push(digits[i]);
            proof {
                assert(r@ =~= seq!['-'] + digits@.take(i + 1));
            }
            i = i + 1;
        }
        proof {
            assert(digits@.take(n as int) =~= digits@);
            assert(r@ =~= dec_int(v as int));
        }
        r
    }
}

/// `v` as decimal characters, with a leading minus sign when negative.
pub fn format_i32(v: i32) -> (r: Vec<char>)
    ensures
        r@ == dec_int(v as int),
{
    format_i64(v as i64)
}

/// `v` as decimal characters.
pub fn format_u32(v: u32) -> (r: Vec<char>)
    ensures
        r@ == dec_nat(v as nat),
{
    format_u128(v as u128)
}

} // verus!
