//! Text rendering used when building request bodies and user-visible
//! messages: decimal integers, fixed-point thousandth values, and JSON
//! string escaping.

use vstd::prelude::*;

verus! {

pub open spec fn spec_digit(d: nat) -> char {
    if d == 0 {
        '0'
    } else if d == 1 {
        '1'
    } else if d == 2 {
        '2'
    } else if d == 3 {
        '3'
    } else if d == 4 {
        '4'
    } else if d == 5 {
        '5'
    } else if d == 6 {
        '6'
    } else if d == 7 {
        '7'
    } else if d == 8 {
        '8'
    } else {
        '9'
    }
}

/// Decimal rendering of a natural number, most significant digit first.
pub open spec fn spec_dec(n: nat) -> Seq<char>
    decreases n,
{
    if n < 10 {
        seq![spec_digit(n)]
    } else {
        spec_dec(n / 10).push(spec_digit(n % 10))
    }
}

/// Rendering of a value held in thousandths: the integer part, then a
/// fraction with trailing zeros trimmed, and no fraction at all for a
/// whole number.  200 reads "0.2", 1100 reads "1.1", 2000 reads "2".
pub open spec fn spec_milli(n: nat) -> Seq<char> {
    spec_dec(n / 1000) + spec_frac(n % 1000)
}

pub open spec fn spec_frac(f: nat) -> Seq<char> {
    if f == 0 {
        Seq::empty()
    } else {
        seq!['.'] + spec_frac_digits(f)
    }
}

pub open spec fn spec_frac_digits(f: nat) -> Seq<char> {
    if f % 10 != 0 {
        seq![spec_digit(f / 100), spec_digit((f / 10) % 10), spec_digit(f % 10)]
    } else if (f / 10) % 10 != 0 {
        seq![spec_digit(f / 100), spec_digit((f / 10) % 10)]
    } else {
        seq![spec_digit(f / 100)]
    }
}

fn digit_char(d: u64) -> (c: char)
    requires
        d < 10,
    ensures
        c == spec_digit(d as nat),
{
    if d == 0 {
        '0'
    } else if d == 1 {
        '1'
    } else if d == 2 {
        '2'
    } else if d == 3 {
        '3'
    } else if d == 4 {
        '4'
    } else if d == 5 {
        '5'
    } else if d == 6 {
        '6'
    } else if d == 7 {
        '7'
    } else if d == 8 {
        '8'
    } else {
        '9'
    }
}

/// Append the decimal rendering of `n`.
pub fn push_dec(out: &mut Vec<char>, n: u64)
    ensures
        final(out)@ == old(out)@ + spec_dec(n as nat),
    decreases n,
{
    if n < 10 {
        out.push(digit_char(n));
        proof {
            assert(old(out)@.push(spec_digit(n as nat)) =~= old(out)@ + spec_dec(n as nat));
        }
    } else {
        push_dec(out, n / 10);
        out.push(digit_char(n % 10));
        proof {
            assert((old(out)@ + spec_dec((n / 10) as nat)).push(spec_digit((n % 10) as nat))
                =~= old(out)@ + spec_dec(n as nat));
        }
    }
}

/// Append the thousandths rendering of `n`.
pub fn push_milli(out: &mut Vec<char>, n: u32)
    ensures
        final(out)@ == old(out)@ + spec_milli(n as nat),
{
    let whole: u64 = (n / 1000) as u64;
    let f: u32 = n % 1000;
    push_dec(out, whole);
    if f != 0 {
        out.push('.');
        let d1 = digit_char((f / 100) as u64);
        let d2 = digit_char(((f / 10) % 10) as u64);
        let d3 = digit_char((f % 10) as u64);
        if f % 10 != 0 {
            out.push(d1);
            out.push(d2);
            out.push(d3);
        } else if (f / 10) % 10 != 0 {
            out.push(d1);
            out.push(d2);
        } else {
            out.push(d1);
        }
    }
    proof {
        assert(final(out)@ =~= old(out)@ + spec_milli(n as nat));
    }
}

pub open spec fn spec_hex_digit(d: nat) -> char {
    if d < 10 {
        spec_digit(d)
    } else if d == 10 {
        'a'
    } else if d == 11 {
        'b'
    } else if d == 12 {
        'c'
    } else if d == 13 {
        'd'
    } else if d == 14 {
        'e'
    } else {
        'f'
    }
}

fn hex_digit_char(d: u32) -> (c: char)
    requires
        d < 16,
    ensures
        c == spec_hex_digit(d as nat),
{
    if d < 10 {
        digit_char(d as u64)
    } else if d == 10 {
        'a'
    } else if d == 11 {
        'b'
    } else if d == 12 {
        'c'
    } else if d == 13 {
        'd'
    } else if d == 14 {
        'e'
    } else {
        'f'
    }
}

/// How one character stands inside a JSON string literal.
pub open spec fn spec_escape_char(c: char) -> Seq<char> {
    if c == '"' {
        seq!['\\', '"']
    } else if c == '\\' {
        seq!['\\', '\\']
    } else if c == '\n' {
        seq!['\\', 'n']
    } else if c == '\r' {
        seq!['\\', 'r']
    } else if c == '\t' {
        seq!['\\', 't']
    } else if (c as u32) < 32 {
        seq!['\\', 'u', '0', '0', spec_hex_digit(((c as u32) / 16) as nat), spec_hex_digit(
            ((c as u32) % 16) as nat,
        )]
    } else {
        seq![c]
    }
}

/// A whole text, escaped character by character.
pub open spec fn spec_escape(s: Seq<char>) -> Seq<char>
    decreases s.len(),
{
    if s.len() == 0 {
        Seq::empty()
    } else {
        spec_escape(s.drop_last()) + spec_escape_char(s.last())
    }
}

/// Append `c` as it stands inside a JSON string literal.
fn push_escaped_char(out: &mut Vec<char>, c: char)
    ensures
        final(out)@ == old(out)@ + spec_escape_char(c),
{
    if c == '"' {
        out.push('\\');
        out.push('"');
    } else if c == '\\' {
        out.push('\\');
        out.push('\\');
    } else if c == '\n' {
        out.push('\\');
        out.push('n');
    } else if c == '\r' {
        out.push('\\');
        out.push('r');
    } else if c == '\t' {
        out.push('\\');
        out.push('t');
    } else if (c as u32) < 32 {
        out.push('\\');
        out.push('u');
        out.push('0');
        out.push('0');
        out.push(hex_digit_char((c as u32) / 16));
        out.push(hex_digit_char((c as u32) % 16));
    } else {
        out.push(c);
    }
    proof {
        assert(final(out)@ =~= old(out)@ + spec_escape_char(c));
    }
}

/// Append the JSON escaping of a whole text.
pub fn push_escaped(out: &mut Vec<char>, s: &str)
    ensures
        final(out)@ == old(out)@ + spec_escape(s@),
{
    let n = s.unicode_len();
    let mut i: usize = 0;
    while i < n
        invariant
            n == s@.len(),
            i <= n,
            out@ == old(out)@ + spec_escape(s@.take(i as int)),
        decreases n - i,
    {
        let c = s.get_char(i);
        push_escaped_char(out, c);
        proof {
            let t = s@.take(i + 1 as int);
            assert(t.drop_last() =~= s@.take(i as int));
            assert(t.last() == s@[i as int]);
            assert(out@ =~= old(out)@ + spec_escape(s@.take(i + 1 as int)));
        }
        i = i + 1;
    }
    proof {
        assert(s@.take(n as int) =~= s@);
    }
}

/// Append every character of `s`.
pub fn push_str_chars(out: &mut Vec<char>, s: &str)
    ensures
        final(out)@ == old(out)@ + s@,
{
    let n = s.unicode_len();
    let mut i: usize = 0;
    while i < n
        invariant
            n == s@.len(),
            i <= n,
            out@ == old(out)@ + s@.take(i as int),
        decreases n - i,
    {
        let c = s.get_char(i);
        out.push(c);
        proof {
            assert((old(out)@ + s@.take(i as int)).push(s@[i as int]) =~= old(out)@ + s@.take(
                i + 1 as int,
            ));
        }
        i = i + 1;
    }
    proof {
        assert(s@.take(n as int) =~= s@);
    }
}

/// Relies on String's FromIterator impl: collecting characters yields a
/// string holding exactly those characters in order.
#[verifier::external_body]
pub fn chars_to_string(v: &Vec<char>) -> (r: String)
    ensures
        r@ == v@,
{
    v.iter().collect()
}

/// Concatenation of two texts.
pub fn concat_str(a: &str, b: &str) -> (r: String)
    ensures
        r@ == a@ + b@,
{
    let mut s = a.to_owned();
    s.append(b);
    s
}

} // verus!
