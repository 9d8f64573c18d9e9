//! Primitive text-building utilities for the output formatters: string
//! escaping, character literals, and integer rendering, each specified
//! as a function from character sequences to character sequences.

use vstd::prelude::*;
use vstd::string::StrSliceExecFns;

verus! {

/// Relies on String::push: appends exactly one character.
#[verifier::external_body]
pub fn push_char(s: &mut String, c: char)
    ensures
        final(s)@ == old(s)@.push(c),
{
    s.push(c);
}

/// How one character appears inside a quoted string.
pub open spec fn esc_char(c: char) -> Seq<char> {
    if c == '"' {
        seq!['\\', '"']
    } else if c == '\\' {
        seq!['\\', '\\']
    } else if c == '\n' {
        seq!['\\', 'n']
    } else if c == '\r' {
        seq!['\\', 'r']
    } else if c == '\t' {
        seq!['\\', 't']
    } else {
        seq![c]
    }
}

/// A string with every special character escaped.
pub open spec fn escaped(s: Seq<char>) -> Seq<char>
    decreases s.len(),
{
    if s.len() == 0 {
        Seq::empty()
    } else {
        escaped(s.drop_last()) + esc_char(s.last())
    }
}

/// Escapes special characters in a string.
pub fn escape_string(s: &str) -> (r: String)
    ensures
        r@ == escaped(s@),
{
    let n = s.unicode_len();
    let mut out = String::new();
    let mut i: usize = 0;
    proof {
        assert(s@.take(0) =~= Seq::<char>::empty());
        assert(escaped(s@.take(0)) =~= Seq::<char>::empty());
    }
    while i < n
        invariant
            i <= n,
            n == s@.len(),
            out@ == escaped(s@.take(i as int)),
        decreases n - i,
    {
        let c = s.get_char(i);
        proof {
            assert(s@.take(i as int + 1).drop_last() =~= s@.take(i as int));
            assert(s@.take(i as int + 1).last() == s@[i as int]);
        }
        if c == '"' {
            push_char(&mut out, '\\');
            push_char(&mut out, '"');
        } else if c == '\\' {
            push_char(&mut out, '\\');
            push_char(&mut out, '\\');
        } else if c == '\n' {
            push_char(&mut out, '\\');
            push_char(&mut out, 'n');
        } else if c == '\r' {
            push_char(&mut out, '\\');
            push_char(&mut out, 'r');
        } else if c == '\t' {
            push_char(&mut out, '\\');
            push_char(&mut out, 't');
        } else {
            push_char(&mut out, c);
        }
        proof {
            assert(out@ =~= escaped(s@.take(i as int)) + esc_char(s@[i as int]));
        }
        i = i + 1;
    }
    proof {
        assert(s@.take(n as int) =~= s@);
    }
    out
}

/// How a character value renders as a character literal.
pub open spec fn char_text(c: char) -> Seq<char> {
    if c == '\n' {
        "\\newline"@
    } else if c == '\t' {
        "\\tab"@
    } else if c == '\r' {
        "\\return"@
    } else if c == ' ' {
        "\\space"@
    } else {
        seq!['\\', c]
    }
}

/// Renders a character literal.
pub fn format_character(c: char) -> (r: String)
    ensures
        r@ == char_text(c),
{
    if c == '\n' {
        "\\newline".to_owned()
    } else if c == '\t' {
        "\\tab".to_owned()
    } else if c == '\r' {
        "\\return".to_owned()
    } else if c == ' ' {
        "\\space".to_owned()
    } else {
        let mut out = String::new();
        push_char(&mut out, '\\');
        push_char(&mut out, c);
        proof {
            assert(out@ =~= seq!['\\', c]);
        }
        out
    }
}

/// The decimal digit character of a value below ten.
pub open spec fn digit_char(d: nat) -> char {
    if d == 0 {
        '0'
    } else if d == 1 {
        '1'
    } else if d == 2 {
        '2'
    } else if d == 3 {
        '3'
    } else if d == 4 {
        '4'
    } else if d == 5 {
        '5'
    } else if d == 6 {
        '6'
    } else if d == 7 {
        '7'
    } else if d == 8 {
        '8'
    } else {
        '9'
    }
}

/// The decimal digits of a natural number, most significant first.
pub open spec fn digits_text(n: nat) -> Seq<char>
    decreases n,
{
    if n < 10 {
        seq![digit_char(n)]
    } else {
        digits_text(n / 10).push(digit_char(n % 10))
    }
}

/// How an integer value renders.
pub open spec fn int_text(i: i64) -> Seq<char> {
    if i < 0 {
        seq!['-'] + digits_text((-(i as int)) as nat)
    } else {
        digits_text(i as nat)
    }
}

fn push_digits(out: &mut String, n: u64)
    ensures
        final(out)@ == old(out)@ + digits_text(n as nat),
    decreases n,
{
    if n < 10 {
        let d: char = if n == 0 {
            '0'
        } else if n == 1 {
            '1'
        } else if n == 2 {
            '2'
        } else if n == 3 {
            '3'
        } else if n == 4 {
            '4'
        } else if n == 5 {
            '5'
        } else if n == 6 {
            '6'
        } else if n == 7 {
            '7'
        } else if n == 8 {
            '8'
        } else {
            '9'
        };
        push_char(out, d);
        proof {
            assert(out@ =~= old(out)@ + digits_text(n as nat));
        }
    } else {
        push_digits(out, n / 10);
        let rem = n % 10;
        let d: char = if rem == 0 {
            '0'
        } else if rem == 1 {
            '1'
        } else if rem == 2 {
            '2'
        } else if rem == 3 {
            '3'
        } else if rem == 4 {
            '4'
        } else if rem == 5 {
            '5'
        } else if rem == 6 {
            '6'
        } else if rem == 7 {
            '7'
        } else if rem == 8 {
            '8'
        } else {
            '9'
        };
        push_char(out, d);
        proof {
            assert(out@ =~= old(out)@ + digits_text(n as nat));
        }
    }
}

/// Renders an integer in decimal.
pub fn format_integer(i: i64) -> (r: String)
    ensures
        r@ == int_text(i),
{
    let mut out = String::new();
    if i < 0 {
        push_char(&mut out, '-');
        let mag: u64 = if i == i64::MIN {
            0x8000_0000_0000_0000u64
        } else {
            (-i) as u64
        };
        push_digits(&mut out, mag);
        proof {
            assert(out@ =~= seq!['-'] + digits_text(mag as nat));
        }
    } else {
        push_digits(&mut out, i as u64);
        proof {
            assert(out@ =~= digits_text(i as nat));
        }
    }
    out
}

} // verus!
