//! Escaping of one string field for the canonical text form, and the
//! decimal rendering of plural indices.

use vstd::prelude::*;
use crate::chars::chars_to_string;
use crate::chars::str_chars;

verus! {

/// The escaped form of one character. A newline that ends the string is
/// written `\n` inline; any earlier newline is followed by the
/// continuation pattern - closing quote, line break, reopening quote -
/// so that the emitted text keeps the multi-line shape of the source.
pub open spec fn spec_escape_char(c: char, is_last: bool) -> Seq<char> {
    if c == '\r' {
        seq!['\\', 'r']
    } else if c == '\n' && is_last {
        seq!['\\', 'n']
    } else if c == '\n' {
        seq!['\\', 'n', '"', '\n', '"']
    } else if c == '\t' {
        seq!['\\', 't']
    } else if c == '"' {
        seq!['\\', '"']
    } else if c == '\\' {
        seq!['\\', '\\']
    } else {
        seq![c]
    }
}

pub open spec fn spec_escape_body(s: Seq<char>) -> Seq<char>
    decreases s.len(),
{
    if s.len() == 0 {
        Seq::empty()
    } else {
        spec_escape_char(s[0], s.len() == 1) + spec_escape_body(s.skip(1))
    }
}

/// Whether the string holds a newline before its final character; only
/// such a newline forces the continuation pattern, and then the whole
/// escaped form opens with an empty leading segment.
pub open spec fn has_inner_newline(s: Seq<char>) -> bool {
    exists|j: int| 0 <= j < s.len() - 1 && s[j] == '\n'
}

/// The escaped text of one string field, without the surrounding
/// quotes.
pub open spec fn spec_escape(s: Seq<char>) -> Seq<char> {
    if has_inner_newline(s) {
        seq!['"', '\n', '"'] + spec_escape_body(s)
    } else {
        spec_escape_body(s)
    }
}

/// Appends the escaped form of `s` to `out`.
pub fn push_escaped(out: &mut Vec<char>, s: &Vec<char>)
    ensures
        final(out)@ == old(out)@ + spec_escape(s@),
{
    let n = s.len();
    let mut inner_newline = false;
    let mut i: usize = 0;
    while i < n
        invariant
            n == s@.len(),
            i <= n,
            inner_newline == exists|j: int| 0 <= j < i && j < n - 1 && s@[j] == '\n',
        decreases n - i,
    {
        if i + 1 < n && s[i] == '\n' {
            inner_newline = true;
        }
        i = i + 1;
    }
    assert(inner_newline == has_inner_newline(s@));
    if inner_newline {
        out.push('"');
        out.push('\n');
        out.push('"');
    }
    let ghost start = out@;
    assert(s@.skip(0) =~= s@);
    let mut i: usize = 0;
    while i < n
        invariant
            n == s@.len(),
            i <= n,
            out@ + spec_escape_body(s@.skip(i as int)) == start + spec_escape_body(s@),
        decreases n - i,
    {
        let c = s[i];
        let is_last = i + 1 == n;
        if c == '\r' {
            out.push('\\');
            out.push('r');
        } else if c == '\n' && is_last {
            out.push('\\');
            out.push('n');
        } else if c == '\n' {
            out.push('\\');
            out.push('n');
            out.push('"');
            out.push('\n');
            out.push('"');
        } else if c == '\t' {
            out.push('\\');
            out.push('t');
        } else if c == '"' {
            out.push('\\');
            out.push('"');
        } else if c == '\\' {
            out.push('\\');
            out.push('\\');
        } else {
            out.push(c);
        }
        proof {
            let tail = s@.skip(i as int);
            assert(tail[0] == s@[i as int]);
            assert(tail.skip(1) =~= s@.skip(i + 1));
            assert(spec_escape_body(tail) == spec_escape_char(s@[i as int], i + 1 == n)
                + spec_escape_body(s@.skip(i + 1)));
            assert(out@ + spec_escape_body(s@.skip(i + 1)) =~= start + spec_escape_body(s@));
        }
        i = i + 1;
    }
    proof {
        assert(s@.skip(n as int) =~= Seq::<char>::empty());
        assert(out@ =~= out@ + spec_escape_body(s@.skip(n as int)));
    }
}

/// The escaped text of one string field, as the canonical serializer
/// writes it between quotes.
pub fn escape_string(s: &str) -> (r: String)
    ensures
        r@ == spec_escape(s@),
{
    let v = str_chars(s);
    let mut out: Vec<char> = Vec::new();
    push_escaped(&mut out, &v);
    chars_to_string(&out)
}

/// The decimal digits of a number, most significant first.
pub open spec fn spec_decimal(n: nat) -> Seq<char>
    decreases n,
{
    if n < 10 {
        seq![spec_digit_char(n)]
    } else {
        spec_decimal(n / 10) + seq![spec_digit_char(n % 10)]
    }
}

/// The digit character of a value below ten.
pub open spec fn spec_digit_char(d: nat) -> char {
    if d == 0 {
        '0'
    } else if d == 1 {
        '1'
    } else if d == 2 {
        '2'
    } else if d == 3 {
        '3'
    } else if d == 4 {
        '4'
    } else if d == 5 {
        '5'
    } else if d == 6 {
        '6'
    } else if d == 7 {
        '7'
    } else if d == 8 {
        '8'
    } else {
        '9'
    }
}

fn digit_char(d: usize) -> (c: char)
    requires
        d < 10,
    ensures
        c == spec_digit_char(d as nat),
{
    if d == 0 {
        '0'
    } else if d == 1 {
        '1'
    } else if d == 2 {
        '2'
    } else if d == 3 {
        '3'
    } else if d == 4 {
        '4'
    } else if d == 5 {
        '5'
    } else if d == 6 {
        '6'
    } else if d == 7 {
        '7'
    } else if d == 8 {
        '8'
    } else {
        '9'
    }
}

/// Appends the decimal digits of `n` to `out`.
pub fn push_decimal(out: &mut Vec<char>, n: usize)
    ensures
        final(out)@ == old(out)@ + spec_decimal(n as nat),
    decreases n,
{
    if n < 10 {
        out.push(digit_char(n));
        assert(out@ =~= old(out)@ + spec_decimal(n as nat));
    } else {
        push_decimal(out, n / 10);
        out.push(digit_char(n % 10));
        assert(out@ =~= old(out)@ + spec_decimal(n as nat));
    }
}

} // verus!
