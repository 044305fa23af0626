//! Lowercase hexadecimal formatting and parsing of trace and span
//! identifiers: a trace id is 32 hex characters (128 bits), a span id 16
//! (64 bits), always zero-padded and lowercase.

use vstd::prelude::*;
use vstd::arithmetic::div_mod::{lemma_mod_breakdown, lemma_small_mod};

verus! {

/// 16 raised to `n`.
pub open spec fn pow16(n: nat) -> nat
    decreases n,
{
    if n == 0 {
        1
    } else {
        16 * pow16((n - 1) as nat)
    }
}

/// The lowercase hex digit for a value below 16.
pub open spec fn hex_digit(d: nat) -> char {
    if d == 0 { '0' }
    else if d == 1 { '1' }
    else if d == 2 { '2' }
    else if d == 3 { '3' }
    else if d == 4 { '4' }
    else if d == 5 { '5' }
    else if d == 6 { '6' }
    else if d == 7 { '7' }
    else if d == 8 { '8' }
    else if d == 9 { '9' }
    else if d == 10 { 'a' }
    else if d == 11 { 'b' }
    else if d == 12 { 'c' }
    else if d == 13 { 'd' }
    else if d == 14 { 'e' }
    else { 'f' }
}

/// `v` written as exactly `n` lowercase hex digits (most significant first,
/// truncated to the low `4 * n` bits).
pub open spec fn hex_pad(v: nat, n: nat) -> Seq<char>
    decreases n,
{
    if n == 0 {
        Seq::empty()
    } else {
        hex_pad(v / 16, (n - 1) as nat).push(hex_digit(v % 16))
    }
}

pub open spec fn is_lower_hex_digit(c: char) -> bool {
    ('0' <= c && c <= '9') || ('a' <= c && c <= 'f')
}

pub open spec fn all_lower_hex(s: Seq<char>) -> bool {
    forall|i: int| 0 <= i < s.len() ==> is_lower_hex_digit(#[trigger] s[i])
}

/// The numeric value of a lowercase hex digit (0 for other characters).
pub open spec fn hex_digit_val(c: char) -> nat {
    if c == '0' { 0 }
    else if c == '1' { 1 }
    else if c == '2' { 2 }
    else if c == '3' { 3 }
    else if c == '4' { 4 }
    else if c == '5' { 5 }
    else if c == '6' { 6 }
    else if c == '7' { 7 }
    else if c == '8' { 8 }
    else if c == '9' { 9 }
    else if c == 'a' { 10 }
    else if c == 'b' { 11 }
    else if c == 'c' { 12 }
    else if c == 'd' { 13 }
    else if c == 'e' { 14 }
    else if c == 'f' { 15 }
    else { 0 }
}

/// The numeric value of a sequence of hex digits, most significant first.
pub open spec fn hex_val(s: Seq<char>) -> nat
    decreases s.len(),
{
    if s.len() == 0 {
        0
    } else {
        hex_val(s.drop_last()) * 16 + hex_digit_val(s.last())
    }
}

/// Whether some character of `s` is an ASCII uppercase letter.
pub open spec fn has_ascii_uppercase(s: Seq<char>) -> bool {
    exists|i: int| 0 <= i < s.len() && 'A' <= #[trigger] s[i] && s[i] <= 'Z'
}

pub proof fn lemma_pow16_pos(n: nat)
    ensures
        pow16(n) >= 1,
    decreases n,
{
    if n > 0 {
        lemma_pow16_pos((n - 1) as nat);
    }
}

pub proof fn lemma_pow16_mono(a: nat, b: nat)
    requires
        a <= b,
    ensures
        pow16(a) <= pow16(b),
    decreases b,
{
    if a < b {
        lemma_pow16_mono(a, (b - 1) as nat);
        lemma_pow16_pos((b - 1) as nat);
    }
}

pub proof fn lemma_pow16_16()
    ensures
        pow16(16) == 0x10000000000000000,
{
    assert(pow16(0) == 1);
    assert(pow16(1) == 0x10);
    assert(pow16(2) == 0x100);
    assert(pow16(3) == 0x1000);
    assert(pow16(4) == 0x10000);
    assert(pow16(5) == 0x100000);
    assert(pow16(6) == 0x1000000);
    assert(pow16(7) == 0x10000000);
    assert(pow16(8) == 0x100000000);
    assert(pow16(9) == 0x1000000000);
    assert(pow16(10) == 0x10000000000);
    assert(pow16(11) == 0x100000000000);
    assert(pow16(12) == 0x1000000000000);
    assert(pow16(13) == 0x10000000000000);
    assert(pow16(14) == 0x100000000000000);
    assert(pow16(15) == 0x1000000000000000);
    assert(pow16(16) == 0x10000000000000000);
}

pub proof fn lemma_pow16_32()
    ensures
        pow16(32) == 0x100000000000000000000000000000000,
{
    lemma_pow16_16();
    assert(pow16(17) == 0x100000000000000000);
    assert(pow16(18) == 0x1000000000000000000);
    assert(pow16(19) == 0x10000000000000000000);
    assert(pow16(20) == 0x100000000000000000000);
    assert(pow16(21) == 0x1000000000000000000000);
    assert(pow16(22) == 0x10000000000000000000000);
    assert(pow16(23) == 0x100000000000000000000000);
    assert(pow16(24) == 0x1000000000000000000000000);
    assert(pow16(25) == 0x10000000000000000000000000);
    assert(pow16(26) == 0x100000000000000000000000000);
    assert(pow16(27) == 0x1000000000000000000000000000);
    assert(pow16(28) == 0x10000000000000000000000000000);
    assert(pow16(29) == 0x100000000000000000000000000000);
    assert(pow16(30) == 0x1000000000000000000000000000000);
    assert(pow16(31) == 0x10000000000000000000000000000000);
    assert(pow16(32) == 0x100000000000000000000000000000000);
}

/// Formatting then reading back is the identity on the low `4 * n` bits:
/// `hex_pad(v, n)` is `n` lowercase hex digits whose value is `v % 16^n`.
pub proof fn lemma_hex_pad_val(v: nat, n: nat)
    ensures
        hex_pad(v, n).len() == n,
        all_lower_hex(hex_pad(v, n)),
        hex_val(hex_pad(v, n)) == v % pow16(n),
    decreases n,
{
    if n == 0 {
        assert(v % 1 == 0) by (nonlinear_arith);
    } else {
        let m = (n - 1) as nat;
        lemma_hex_pad_val(v / 16, m);
        let inner = hex_pad(v / 16, m);
        let whole = hex_pad(v, n);
        assert(whole == inner.push(hex_digit(v % 16)));
        assert(whole.drop_last() =~= inner);
        assert(whole.last() == hex_digit(v % 16));
        assert(hex_digit_val(hex_digit(v % 16)) == v % 16);
        lemma_pow16_pos(m);
        lemma_mod_breakdown(v as int, 16, pow16(m) as int);
        assert(hex_val(whole) == ((v / 16) % pow16(m)) * 16 + v % 16);
    }
}

/// The value of `n` hex digits is below `16^n`.
pub proof fn lemma_hex_val_bound(s: Seq<char>)
    ensures
        hex_val(s) < pow16(s.len()),
    decreases s.len(),
{
    if s.len() == 0 {
    } else {
        lemma_hex_val_bound(s.drop_last());
        assert(hex_digit_val(s.last()) <= 15);
    }
}

/// An ASCII uppercase letter is never a lowercase hex digit.
pub proof fn lemma_uppercase_not_lower_hex(s: Seq<char>)
    requires
        has_ascii_uppercase(s),
    ensures
        !all_lower_hex(s),
{
    let i = choose|i: int| 0 <= i < s.len() && 'A' <= #[trigger] s[i] && s[i] <= 'Z';
    assert(!is_lower_hex_digit(s[i]));
}

pub(crate) fn hex_digit_exec(d: u8) -> (c: char)
    requires
        d < 16,
    ensures
        c == hex_digit(d as nat),
{
    match d {
        0 => '0',
        1 => '1',
        2 => '2',
        3 => '3',
        4 => '4',
        5 => '5',
        6 => '6',
        7 => '7',
        8 => '8',
        9 => '9',
        10 => 'a',
        11 => 'b',
        12 => 'c',
        13 => 'd',
        14 => 'e',
        _ => 'f',
    }
}

fn hex_digit_val_exec(c: char) -> (d: u8)
    requires
        is_lower_hex_digit(c),
    ensures
        d as nat == hex_digit_val(c),
        d < 16,
{
    match c {
        '0' => 0,
        '1' => 1,
        '2' => 2,
        '3' => 3,
        '4' => 4,
        '5' => 5,
        '6' => 6,
        '7' => 7,
        '8' => 8,
        '9' => 9,
        'a' => 10,
        'b' => 11,
        'c' => 12,
        'd' => 13,
        'e' => 14,
        _ => 15,
    }
}

/// `v` as exactly `n` lowercase hex characters, most significant first.
pub fn format_hex(v: u128, n: usize) -> (r: Vec<char>)
    ensures
        r@ == hex_pad(v as nat, n as nat),
    decreases n,
{
    if n == 0 {
        Vec::new()
    } else {
        let mut r = format_hex(v / 16, n - 1);
        r.push(hex_digit_exec((v % 16) as u8));
        r
    }
}

/// Reads `s` as exactly `n` lowercase hex characters; `Some` exactly when the
/// length and every character fit that format.
pub fn parse_hex(s: &Vec<char>, n: usize) -> (r: Option<u128>)
    requires
        n <= 32,
    ensures
        r is Some <==> (s@.len() == n && all_lower_hex(s@)),
        r is Some ==> r->0 as nat == hex_val(s@),
    decreases n,
{
    if s.len() != n {
        return None;
    }
    let ghost sv = s@;
    let mut acc: u128 = 0;
    let mut i: usize = 0;
    while i < n
        invariant
            n <= 32,
            i <= n,
            sv.len() == n,
            sv == s@,
            all_lower_hex(sv.take(i as int)),
            acc as nat == hex_val(sv.take(i as int)),
            (acc as nat) < pow16(i as nat),
        decreases n - i,
    {
        let c = s[i];
        let is_hex: bool = ('0' <= c && c <= '9') || ('a' <= c && c <= 'f');
        if !is_hex {
            assert(!is_lower_hex_digit(sv[i as int]));
            return None;
        }
        let d = hex_digit_val_exec(c);
        proof {
            lemma_pow16_mono((i + 1) as nat, 32);
            lemma_pow16_32();
            assert((acc as nat) * 16 + (d as nat) < pow16((i + 1) as nat)) by {
                assert(pow16((i + 1) as nat) == 16 * pow16(i as nat));
            };
        }
        let next: u128 = acc * 16 + (d as u128);
        proof {
            let t1 = sv.take((i + 1) as int);
            assert(t1.drop_last() =~= sv.take(i as int));
            assert(t1.last() == sv[i as int]);
            assert(hex_val(t1) == hex_val(sv.take(i as int)) * 16 + hex_digit_val(sv[i as int]));
        }
        acc = next;
        i = i + 1;
    }
    proof {
        assert(sv.take(n as int) =~= sv);
    }
    Some(acc)
}

/// A 128-bit trace id as its 32-character lowercase hex form.
pub fn format_trace_id(v: u128) -> (r: Vec<char>)
    ensures
        r@ == hex_pad(v as nat, 32),
{
    format_hex(v, 32)
}

/// A 64-bit span id as its 16-character lowercase hex form.
pub fn format_span_id(v: u64) -> (r: Vec<char>)
    ensures
        r@ == hex_pad(v as nat, 16),
{
    format_hex(v as u128, 16)
}

/// Parses a 32-character lowercase hex trace id.
pub fn parse_trace_id(s: &Vec<char>) -> (r: Option<u128>)
    ensures
        r is Some <==> (s@.len() == 32 && all_lower_hex(s@)),
        r is Some ==> r->0 as nat == hex_val(s@),
{
    parse_hex(s, 32)
}

/// Parses a 16-character lowercase hex span id.
pub fn parse_span_id(s: &Vec<char>) -> (r: Option<u64>)
    ensures
        r is Some <==> (s@.len() == 16 && all_lower_hex(s@)),
        r is Some ==> r->0 as nat == hex_val(s@),
{
    match parse_hex(s, 16) {
        None => None,
        Some(v) => {
            proof {
                lemma_hex_val_bound(s@);
                lemma_pow16_16();
            }
            Some(v as u64)
        },
    }
}

/// Whether some character of `s` is an ASCII uppercase letter.
pub fn find_ascii_uppercase(s: &Vec<char>) -> (r: bool)
    ensures
        r == has_ascii_uppercase(s@),
{
    let mut i: usize = 0;
    while i < s.len()
        invariant
            i <= s@.len(),
            forall|j: int| 0 <= j < i ==> !('A' <= #[trigger] s@[j] && s@[j] <= 'Z'),
        decreases s@.len() - i,
    {
        let c = s[i];
        if 'A' <= c && c <= 'Z' {
            return true;
        }
        i = i + 1;
    }
    false
}

} // verus!
