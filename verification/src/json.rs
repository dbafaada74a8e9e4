//! JSON text framing for outbound frames: character escaping for string
//! values and decimal formatting for small integers, with spec-level
//! definitions of the exact text produced.

use vstd::prelude::*;
use vstd::string::StrSliceExecFns;
use vstd::string::StringExecFns;

verus! {

/// The decimal digit character for a value below ten.
pub open spec fn dec_digit(v: int) -> char {
    if v == 0 {
        '0'
    } else if v == 1 {
        '1'
    } else if v == 2 {
        '2'
    } else if v == 3 {
        '3'
    } else if v == 4 {
        '4'
    } else if v == 5 {
        '5'
    } else if v == 6 {
        '6'
    } else if v == 7 {
        '7'
    } else if v == 8 {
        '8'
    } else {
        '9'
    }
}

/// The lower-case hexadecimal digit character for a value below sixteen.
pub open spec fn hex_digit(v: int) -> char {
    if v < 10 {
        dec_digit(v)
    } else if v == 10 {
        'a'
    } else if v == 11 {
        'b'
    } else if v == 12 {
        'c'
    } else if v == 13 {
        'd'
    } else if v == 14 {
        'e'
    } else {
        'f'
    }
}

/// How one character appears inside a JSON string value: quotation mark,
/// backslash and control characters are escaped, everything else stands
/// verbatim.
pub open spec fn escape_char(c: char) -> Seq<char> {
    if c == '"' {
        seq!['\\', '"']
    } else if c == '\\' {
        seq!['\\', '\\']
    } else if c == '\u{8}' {
        seq!['\\', 'b']
    } else if c == '\u{c}' {
        seq!['\\', 'f']
    } else if c == '\n' {
        seq!['\\', 'n']
    } else if c == '\r' {
        seq!['\\', 'r']
    } else if c == '\t' {
        seq!['\\', 't']
    } else if (c as u32) < 0x20 {
        seq!['\\', 'u', '0', '0', hex_digit(c as u32 as int / 16), hex_digit(c as u32 as int % 16)]
    } else {
        seq![c]
    }
}

/// The body of a JSON string value: every character escaped in order.
pub open spec fn escape_string(s: Seq<char>) -> Seq<char>
    decreases s.len(),
{
    if s.len() == 0 {
        Seq::empty()
    } else {
        escape_char(s[0]) + escape_string(s.drop_first())
    }
}

/// The decimal text of a byte value, without leading zeros.
pub open spec fn dec_u8(n: int) -> Seq<char> {
    if n < 10 {
        seq![dec_digit(n)]
    } else if n < 100 {
        seq![dec_digit(n / 10), dec_digit(n % 10)]
    } else {
        seq![dec_digit(n / 100), dec_digit(n / 10 % 10), dec_digit(n % 10)]
    }
}

/// Escaping distributes over appending one character at the end.
proof fn lemma_escape_push(s: Seq<char>, c: char)
    ensures
        escape_string(s.push(c)) == escape_string(s) + escape_char(c),
    decreases s.len(),
{
    let t = s.push(c);
    if s.len() == 0 {
        assert(t[0] == c);
        assert(t.drop_first() =~= Seq::<char>::empty());
        assert(escape_string(t) == escape_char(c) + escape_string(Seq::<char>::empty()));
        assert(escape_char(c) + Seq::<char>::empty() =~= Seq::<char>::empty() + escape_char(c));
        assert(escape_string(s) == Seq::<char>::empty());
    } else {
        assert(t[0] == s[0]);
        assert(t.drop_first() =~= s.drop_first().push(c));
        lemma_escape_push(s.drop_first(), c);
        assert(escape_string(t) == escape_char(s[0]) + (escape_string(s.drop_first())
            + escape_char(c)));
        assert(escape_char(s[0]) + (escape_string(s.drop_first()) + escape_char(c)) =~= (escape_char(
            s[0],
        ) + escape_string(s.drop_first())) + escape_char(c));
    }
}

/// Relies on `String::push` from std: appends the given character to the end
/// of the string.
#[verifier::external_body]
fn push_char(s: &mut String, c: char)
    ensures
        final(s)@ == old(s)@.push(c),
{
    s.push(c);
}

/// Appends the decimal digit character for `d`.
fn append_digit(out: &mut String, d: u8)
    requires
        d < 10,
    ensures
        final(out)@ == old(out)@.push(dec_digit(d as int)),
{
    let c: char = match d {
        0 => '0',
        1 => '1',
        2 => '2',
        3 => '3',
        4 => '4',
        5 => '5',
        6 => '6',
        7 => '7',
        8 => '8',
        _ => '9',
    };
    assert(c == dec_digit(d as int));
    push_char(out, c);
}

/// Appends the lower-case hexadecimal digit character for `d`.
fn append_hex_digit(out: &mut String, d: u8)
    requires
        d < 16,
    ensures
        final(out)@ == old(out)@.push(hex_digit(d as int)),
{
    if d < 10 {
        append_digit(out, d);
    } else {
        let c: char = match d {
            10 => 'a',
            11 => 'b',
            12 => 'c',
            13 => 'd',
            14 => 'e',
            _ => 'f',
        };
        assert(c == hex_digit(d as int));
        push_char(out, c);
    }
}

/// Appends the decimal text of `n`, without leading zeros.
pub fn append_dec_u8(out: &mut String, n: u8)
    ensures
        final(out)@ == old(out)@ + dec_u8(n as int),
{
    if n < 10 {
        append_digit(out, n);
        assert(old(out)@.push(dec_digit(n as int)) =~= old(out)@ + dec_u8(n as int));
    } else if n < 100 {
        append_digit(out, n / 10);
        append_digit(out, n % 10);
        assert(old(out)@.push(dec_digit(n as int / 10)).push(dec_digit(n as int % 10)) =~= old(
            out,
        )@ + dec_u8(n as int));
    } else {
        append_digit(out, n / 100);
        append_digit(out, (n / 10) % 10);
        append_digit(out, n % 10);
        assert(old(out)@.push(dec_digit(n as int / 100)).push(dec_digit(n as int / 10 % 10)).push(
            dec_digit(n as int % 10),
        ) =~= old(out)@ + dec_u8(n as int));
    }
}

/// Appends one character in its JSON-escaped form.
fn append_escaped_char(out: &mut String, c: char)
    ensures
        final(out)@ == old(out)@ + escape_char(c),
{
    if c == '"' {
        push_char(out, '\\');
        push_char(out, '"');
        assert(old(out)@.push('\\').push('"') =~= old(out)@ + escape_char(c));
    } else if c == '\\' {
        push_char(out, '\\');
        push_char(out, '\\');
        assert(old(out)@.push('\\').push('\\') =~= old(out)@ + escape_char(c));
    } else if c == '\u{8}' {
        push_char(out, '\\');
        push_char(out, 'b');
        assert(old(out)@.push('\\').push('b') =~= old(out)@ + escape_char(c));
    } else if c == '\u{c}' {
        push_char(out, '\\');
        push_char(out, 'f');
        assert(old(out)@.push('\\').push('f') =~= old(out)@ + escape_char(c));
    } else if c == '\n' {
        push_char(out, '\\');
        push_char(out, 'n');
        assert(old(out)@.push('\\').push('n') =~= old(out)@ + escape_char(c));
    } else if c == '\r' {
        push_char(out, '\\');
        push_char(out, 'r');
        assert(old(out)@.push('\\').push('r') =~= old(out)@ + escape_char(c));
    } else if c == '\t' {
        push_char(out, '\\');
        push_char(out, 't');
        assert(old(out)@.push('\\').push('t') =~= old(out)@ + escape_char(c));
    } else {
        let u = c as u32;
        if u < 0x20 {
            push_char(out, '\\');
            push_char(out, 'u');
            push_char(out, '0');
            push_char(out, '0');
            append_hex_digit(out, (u / 16) as u8);
            append_hex_digit(out, (u % 16) as u8);
            assert(old(out)@.push('\\').push('u').push('0').push('0').push(
                hex_digit(u as int / 16),
            ).push(hex_digit(u as int % 16)) =~= old(out)@ + escape_char(c));
        } else {
            push_char(out, c);
            assert(old(out)@.push(c) =~= old(out)@ + escape_char(c));
        }
    }
}

/// Appends the JSON-escaped form of a whole string.
pub fn append_escaped(out: &mut String, s: &str)
    ensures
        final(out)@ == old(out)@ + escape_string(s@),
{
    let n = s.unicode_len();
    let mut i: usize = 0;
    assert(s@.subrange(0, 0) =~= Seq::<char>::empty());
    assert(out@ =~= old(out)@ + escape_string(s@.subrange(0, 0)));
    while i < n
        invariant
            i <= n,
            n == s@.len(),
            out@ == old(out)@ + escape_string(s@.subrange(0, i as int)),
        decreases n - i,
    {
        let c = s.get_char(i);
        append_escaped_char(out, c);
        proof {
            let pre = s@.subrange(0, i as int);
            assert(s@.subrange(0, i + 1) =~= pre.push(c));
            lemma_escape_push(pre, c);
        }
        i += 1;
    }
    assert(s@.subrange(0, n as int) =~= s@);
}

} // verus!
