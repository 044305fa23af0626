//! Emission of JSON text as character vectors: string escaping and the
//! primitive tokens the wire document is built from.
//!
//! Escaping follows the common JSON convention: quote and backslash get a
//! backslash, the five named control characters use their short forms, any
//! other character below U+0020 becomes `\u00XX`, and everything else is
//! passed through unchanged.

use vstd::prelude::*;
use crate::ids::{hex_digit, hex_digit_exec};
use crate::numfmt::{dec_int, dec_nat, format_i64, format_u128, format_u64};
use crate::strutil::push_str_chars;

verus! {

/// Concatenation of character sequences is associative.
pub broadcast proof fn lemma_char_seq_add_assoc(a: Seq<char>, b: Seq<char>, c: Seq<char>)
    ensures
        #[trigger] ((a + b) + c) == a + (b + c),
{
    assert((a + b) + c =~= a + (b + c));
}

/// The escape sequence (usually a single character) that `c` becomes inside
/// a JSON string literal.
pub open spec fn esc_char(c: char) -> Seq<char> {
    if c == '"' {
        seq!['\\', '"']
    } else if c == '\\' {
        seq!['\\', '\\']
    } else if c == '\u{08}' {
        seq!['\\', 'b']
    } else if c == '\t' {
        seq!['\\', 't']
    } else if c == '\n' {
        seq!['\\', 'n']
    } else if c == '\u{0c}' {
        seq!['\\', 'f']
    } else if c == '\r' {
        seq!['\\', 'r']
    } else if ' ' > c {
        seq!['\\', 'u', '0', '0', hex_digit(c as nat / 16), hex_digit(c as nat % 16)]
    } else {
        seq![c]
    }
}

/// `s` escaped for use inside a JSON string literal.
pub open spec fn json_escape(s: Seq<char>) -> Seq<char>
    decreases s.len(),
{
    if s.len() == 0 {
        Seq::empty()
    } else {
        esc_char(s[0]) + json_escape(s.drop_first())
    }
}

/// A JSON string literal holding `s`.
pub open spec fn jstr(s: Seq<char>) -> Seq<char> {
    seq!['"'] + json_escape(s) + seq!['"']
}

/// A JSON boolean token.
pub open spec fn jbool(b: bool) -> Seq<char> {
    if b {
        "true"@
    } else {
        "false"@
    }
}

proof fn lemma_escape_push(s: Seq<char>, c: char)
    ensures
        json_escape(s.push(c)) == json_escape(s) + esc_char(c),
    decreases s.len(),
{
    if s.len() == 0 {
        assert(s.push(c)[0] == c);
        assert(s.push(c).drop_first() =~= Seq::<char>::empty());
        assert(json_escape(Seq::<char>::empty()) =~= Seq::<char>::empty());
        assert(json_escape(s.push(c)) =~= json_escape(s) + esc_char(c));
    } else {
        assert(s.push(c)[0] == s[0]);
        assert(s.push(c).drop_first() =~= s.drop_first().push(c));
        lemma_escape_push(s.drop_first(), c);
        assert(json_escape(s.push(c)) == esc_char(s[0]) + (json_escape(s.drop_first()) + esc_char(
            c,
        )));
        assert(esc_char(s[0]) + (json_escape(s.drop_first()) + esc_char(c)) =~= json_escape(s)
            + esc_char(c));
    }
}

fn control_digits(c: char) -> (r: (char, char))
    requires
        ' ' > c,
    ensures
        r.0 == hex_digit(c as nat / 16),
        r.1 == hex_digit(c as nat % 16),
{
    let b: u8 = c as u8;
    proof {
        assert(b as nat == c as nat);
    }
    (hex_digit_exec(b / 16), hex_digit_exec(b % 16))
}

/// Appends the characters of `v` to `out`.
pub fn push_all(out: &mut Vec<char>, v: &Vec<char>)
    ensures
        final(out)@ == old(out)@ + v@,
{
    let n: usize = v.len();
    let mut i: usize = 0;
    while i < n
        invariant
            n == v@.len(),
            i <= n,
            out@ == old(out)@ + v@.take(i as int),
        decreases n - i,
    {
        out.push(v[i]);
        proof {
            assert(out@ =~= old(out)@ + v@.take(i + 1));
        }
        i = i + 1;
    }
    proof {
        assert(out@ =~= old(out)@ + v@);
    }
}

/// Appends `s`, escaped, to `out`.
pub fn emit_escaped(out: &mut Vec<char>, s: &str)
    ensures
        final(out)@ == old(out)@ + json_escape(s@),
{
    let n: usize = s.unicode_len();
    let mut i: usize = 0;
    proof {
        assert(s@.take(0) =~= Seq::<char>::empty());
    }
    while i < n
        invariant
            n == s@.len(),
            i <= n,
            out@ == old(out)@ + json_escape(s@.take(i as int)),
        decreases n - i,
    {
        let c = s.get_char(i);
        if c == '"' {
            out.push('\\');
            out.push('"');
        } else if c == '\\' {
            out.push('\\');
            out.push('\\');
        } else if c == '\u{08}' {
            out.push('\\');
            out.push('b');
        } else if c == '\t' {
            out.push('\\');
            out.push('t');
        } else if c == '\n' {
            out.push('\\');
            out.push('n');
        } else if c == '\u{0c}' {
            out.push('\\');
            out.push('f');
        } else if c == '\r' {
            out.push('\\');
            out.push('r');
        } else if ' ' > c {
            let (h, l) = control_digits(c);
            out.push('\\');
            out.push('u');
            out.push('0');
            out.push('0');
            out.push(h);
            out.push(l);
        } else {
            out.push(c);
        }
        proof {
            assert(s@.take(i + 1) =~= s@.take(i as int).push(c));
            lemma_escape_push(s@.take(i as int), c);
            assert(out@ =~= old(out)@ + json_escape(s@.take(i + 1)));
        }
        i = i + 1;
    }
    proof {
        assert(s@.take(n as int) =~= s@);
    }
}

/// Appends the JSON string literal for `s` to `out`.
pub fn emit_jstr(out: &mut Vec<char>, s: &str)
    ensures
        final(out)@ == old(out)@ + jstr(s@),
{
    out.push('"');
    emit_escaped(out, s);
    out.push('"');
    proof {
        assert(out@ =~= old(out)@ + jstr(s@));
    }
}

/// Appends the JSON boolean token for `b` to `out`.
pub fn emit_jbool(out: &mut Vec<char>, b: bool)
    ensures
        final(out)@ == old(out)@ + jbool(b),
{
    if b {
        push_str_chars(out, "true");
    } else {
        push_str_chars(out, "false");
    }
}

/// Appends `v` in decimal to `out`.
pub fn emit_u64(out: &mut Vec<char>, v: u64)
    ensures
        final(out)@ == old(out)@ + dec_nat(v as nat),
{
    let d = format_u64(v);
    push_all(out, &d);
}

/// Appends `v` in decimal to `out`.
pub fn emit_u128(out: &mut Vec<char>, v: u128)
    ensures
        final(out)@ == old(out)@ + dec_nat(v as nat),
{
    let d = format_u128(v);
    push_all(out, &d);
}

/// Appends `v` in decimal to `out`.
pub fn emit_u32(out: &mut Vec<char>, v: u32)
    ensures
        final(out)@ == old(out)@ + dec_nat(v as nat),
{
    emit_u64(out, v as u64);
}

/// Appends `v` in decimal to `out`, minus sign included when negative.
pub fn emit_i64(out: &mut Vec<char>, v: i64)
    ensures
        final(out)@ == old(out)@ + dec_int(v as int),
{
    let d = format_i64(v);
    push_all(out, &d);
}

/// Appends `v` in decimal to `out`, minus sign included when negative.
pub fn emit_i32(out: &mut Vec<char>, v: i32)
    ensures
        final(out)@ == old(out)@ + dec_int(v as int),
{
    emit_i64(out, v as i64);
}

} // verus!
