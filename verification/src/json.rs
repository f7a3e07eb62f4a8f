//! JSON text for strings and booleans, written the way `serde_json` writes
//! them.
use vstd::prelude::*;
use crate::text::bool_text;

verus! {

pub open spec fn hex_lower_digit(n: u32) -> char
    recommends
        n < 16,
{
    if n < 10 {
        (48 + n) as char
    } else {
        (87 + n) as char
    }
}

/// How one character stands inside a JSON string: quote and backslash are
/// escaped, the control characters below U+0020 take a short escape where
/// JSON has one and `\u00xx` otherwise, every other character stands as it is.
pub open spec fn escape_char(c: char) -> Seq<char> {
    let x = c as u32;
    if c == '"' {
        seq!['\\', '"']
    } else if c == '\\' {
        seq!['\\', '\\']
    } else if x == 8 {
        seq!['\\', 'b']
    } else if x == 9 {
        seq!['\\', 't']
    } else if x == 10 {
        seq!['\\', 'n']
    } else if x == 12 {
        seq!['\\', 'f']
    } else if x == 13 {
        seq!['\\', 'r']
    } else if x < 32 {
        seq!['\\', 'u', '0', '0', hex_lower_digit(x / 16), hex_lower_digit(x % 16)]
    } else {
        seq![c]
    }
}

/// The escaped characters of `s`, one after another.
pub open spec fn escape_seq(s: Seq<char>) -> Seq<char>
    decreases s.len(),
{
    if s.len() == 0 {
        Seq::empty()
    } else {
        escape_seq(s.drop_last()) + escape_char(s.last())
    }
}

/// A JSON string literal holding `s`.
pub open spec fn json_string(s: Seq<char>) -> Seq<char> {
    seq!['"'] + escape_seq(s) + seq!['"']
}

/// A JSON boolean.
pub open spec fn json_bool(b: bool) -> Seq<char> {
    bool_text(b)
}

fn hex_char_of(n: u32) -> (c: char)
    requires
        n < 16,
    ensures
        c == hex_lower_digit(n),
{
    let b: u8 = if n < 10 {
        (48 + n) as u8
    } else {
        (87 + n) as u8
    };
    b as char
}

/// Appends the escaped form of one character.
fn push_escaped_char(out: &mut String, c: char)
    ensures
        final(out)@ == old(out)@ + escape_char(c),
{
    let x = c as u32;
    let ghost o = out@;
    if c == '"' {
        out.push('\\');
        out.push('"');
    } else if c == '\\' {
        out.push('\\');
        out.push('\\');
    } else if x == 8 {
        out.push('\\');
        out.push('b');
    } else if x == 9 {
        out.push('\\');
        out.push('t');
    } else if x == 10 {
        out.push('\\');
        out.push('n');
    } else if x == 12 {
        out.push('\\');
        out.push('f');
    } else if x == 13 {
        out.push('\\');
        out.push('r');
    } else if x < 32 {
        out.push('\\');
        out.push('u');
        out.push('0');
        out.push('0');
        out.push(hex_char_of(x / 16));
        out.push(hex_char_of(x % 16));
    } else {
        out.push(c);
    }
    assert(out@ =~= o + escape_char(c));
}

/// Appends `s` as a JSON string literal, quotes included.
pub fn push_json_string(out: &mut String, s: &str)
    ensures
        final(out)@ == old(out)@ + json_string(s@),
{
    let v = crate::text::chars_of(s);
    let ghost o = out@;
    out.push('"');
    for i in 0..v.len()
        invariant
            v@ == s@,
            out@ == o + seq!['"'] + escape_seq(s@.take(i as int)),
    {
        proof {
            assert(s@.take(i + 1).drop_last() =~= s@.take(i as int));
            assert(s@.take(i + 1).last() == v@[i as int]);
        }
        push_escaped_char(out, v[i]);
        proof {
            assert(out@ =~= o + seq!['"'] + escape_seq(s@.take(i + 1)));
        }
    }
    out.push('"');
    proof {
        assert(s@.take(s@.len() as int) =~= s@);
        assert(out@ =~= o + json_string(s@));
    }
}

} // verus!
