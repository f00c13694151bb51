//! JSON string encoding for the gateway's response bodies.
//!
//! A value placed inside a JSON string literal must have `"` and `\` escaped
//! and must not contain a raw control character. [`json_escape`] says what
//! the encoding of a sequence of characters is, and [`json_escape_str`]
//! computes it.

use vstd::prelude::*;

verus! {

use vstd::string::StrSliceExecFns;

/// The sixteen hexadecimal digit characters, lower case.
pub open spec fn hex_digit_char(n: u8) -> char {
    seq!['0', '1', '2', '3', '4', '5', '6', '7', '8', '9', 'a', 'b', 'c', 'd', 'e', 'f'][n as int]
}

/// The JSON encoding of one character inside a string literal: quote and
/// backslash take a backslash escape, the control characters with a short
/// escape use it, the remaining control characters use `\u00XX`, and every
/// other character stands for itself.
pub open spec fn json_escape_char(c: char) -> Seq<char> {
    if c == '"' {
        seq!['\\', '"']
    } else if c == '\\' {
        seq!['\\', '\\']
    } else if c == '\u{8}' {
        seq!['\\', 'b']
    } else if c == '\t' {
        seq!['\\', 't']
    } else if c == '\n' {
        seq!['\\', 'n']
    } else if c == '\u{c}' {
        seq!['\\', 'f']
    } else if c == '\r' {
        seq!['\\', 'r']
    } else if (c as u32) < 0x20 {
        seq!['\\', 'u', '0', '0', hex_digit_char((c as u32 / 16) as u8), hex_digit_char(
            (c as u32 % 16) as u8,
        )]
    } else {
        seq![c]
    }
}

/// The JSON encoding of a sequence of characters: each character's encoding,
/// concatenated in order.
pub open spec fn json_escape(s: Seq<char>) -> Seq<char>
    decreases s.len(),
{
    if s.len() == 0 {
        Seq::<char>::empty()
    } else {
        json_escape_char(s[0]) + json_escape(s.drop_first())
    }
}

/// Appending one character to the input appends that character's encoding to
/// the output.
pub proof fn lemma_json_escape_push(s: Seq<char>, c: char)
    ensures
        json_escape(s.push(c)) == json_escape(s) + json_escape_char(c),
    decreases s.len(),
{
    if s.len() == 0 {
        assert(s =~= Seq::<char>::empty());
        assert(json_escape(Seq::<char>::empty()) == Seq::<char>::empty());
        assert(s.push(c)[0] == c);
        assert(s.push(c).drop_first() =~= Seq::<char>::empty());
        assert(json_escape(s.push(c)) =~= json_escape(s) + json_escape_char(c));
    } else {
        assert(s.push(c)[0] == s[0]);
        assert(s.push(c).drop_first() =~= s.drop_first().push(c));
        lemma_json_escape_push(s.drop_first(), c);
        assert(json_escape(s.push(c)) =~= json_escape(s) + json_escape_char(c));
    }
}

/// The value of a lower-case hexadecimal digit character; sixteen when the
/// character is no such digit.
pub open spec fn hex_digit_value(c: char) -> nat {
    if c == '0' {
        0
    } else if c == '1' {
        1
    } else if c == '2' {
        2
    } else if c == '3' {
        3
    } else if c == '4' {
        4
    } else if c == '5' {
        5
    } else if c == '6' {
        6
    } else if c == '7' {
        7
    } else if c == '8' {
        8
    } else if c == '9' {
        9
    } else if c == 'a' {
        10
    } else if c == 'b' {
        11
    } else if c == 'c' {
        12
    } else if c == 'd' {
        13
    } else if c == 'e' {
        14
    } else if c == 'f' {
        15
    } else {
        16
    }
}

/// The digit characters decode back to their values.
pub proof fn lemma_hex_digit_round_trip(n: u8)
    requires
        n < 16,
    ensures
        hex_digit_value(hex_digit_char(n)) == n,
{
    if n == 0 {
        assert(hex_digit_char(0) == '0');
    } else if n == 1 {
        assert(hex_digit_char(1) == '1');
    } else if n == 2 {
        assert(hex_digit_char(2) == '2');
    } else if n == 3 {
        assert(hex_digit_char(3) == '3');
    } else if n == 4 {
        assert(hex_digit_char(4) == '4');
    } else if n == 5 {
        assert(hex_digit_char(5) == '5');
    } else if n == 6 {
        assert(hex_digit_char(6) == '6');
    } else if n == 7 {
        assert(hex_digit_char(7) == '7');
    } else if n == 8 {
        assert(hex_digit_char(8) == '8');
    } else if n == 9 {
        assert(hex_digit_char(9) == '9');
    } else if n == 10 {
        assert(hex_digit_char(10) == 'a');
    } else if n == 11 {
        assert(hex_digit_char(11) == 'b');
    } else if n == 12 {
        assert(hex_digit_char(12) == 'c');
    } else if n == 13 {
        assert(hex_digit_char(13) == 'd');
    } else if n == 14 {
        assert(hex_digit_char(14) == 'e');
    } else {
        assert(hex_digit_char(15) == 'f');
    }
}

/// `Some(c)` prefixed to a decoded tail, `None` carried through.
pub open spec fn decoded_prepend(c: char, rest: Option<Seq<char>>) -> Option<Seq<char>> {
    match rest {
        Option::Some(r) => Option::Some(seq![c] + r),
        Option::None => Option::None,
    }
}

/// Reads JSON string-literal content back: the inverse of [`json_escape`].
/// A raw quote, a raw control character, or an escape that [`json_escape`]
/// never emits yields `None`.
pub open spec fn json_unescape(t: Seq<char>) -> Option<Seq<char>>
    decreases t.len(),
{
    if t.len() == 0 {
        Option::Some(Seq::<char>::empty())
    } else if t[0] == '\\' {
        if t.len() >= 2 && t[1] == '"' {
            decoded_prepend('"', json_unescape(t.skip(2)))
        } else if t.len() >= 2 && t[1] == '\\' {
            decoded_prepend('\\', json_unescape(t.skip(2)))
        } else if t.len() >= 2 && t[1] == 'b' {
            decoded_prepend('\u{8}', json_unescape(t.skip(2)))
        } else if t.len() >= 2 && t[1] == 't' {
            decoded_prepend('\t', json_unescape(t.skip(2)))
        } else if t.len() >= 2 && t[1] == 'n' {
            decoded_prepend('\n', json_unescape(t.skip(2)))
        } else if t.len() >= 2 && t[1] == 'f' {
            decoded_prepend('\u{c}', json_unescape(t.skip(2)))
        } else if t.len() >= 2 && t[1] == 'r' {
            decoded_prepend('\r', json_unescape(t.skip(2)))
        } else if t.len() >= 6 && t[1] == 'u' && t[2] == '0' && t[3] == '0' && hex_digit_value(
            t[4],
        ) < 16 && hex_digit_value(t[5]) < 16 {
            decoded_prepend(
                ((hex_digit_value(t[4]) * 16 + hex_digit_value(t[5])) as u8) as char,
                json_unescape(t.skip(6)),
            )
        } else {
            Option::None
        }
    } else if t[0] == '"' || (t[0] as u32) < 0x20 {
        Option::None
    } else {
        decoded_prepend(t[0], json_unescape(t.drop_first()))
    }
}

/// A control character's code survives the trip through the two digit
/// values and back.
proof fn lemma_control_code_char(c: char)
    requires
        (c as u32) < 0x20,
    ensures
        (((c as u32) / 16) as u8) * 16 + (((c as u32) % 16) as u8) == c as u32,
        ((c as u32) as u8) as char == c,
{
}

/// Escaping loses nothing: the encoded form reads back to exactly the
/// characters that went in. In particular the encoding carries no raw quote
/// and no raw control character, and two different values never share an
/// encoding.
pub proof fn lemma_json_unescape_escape(s: Seq<char>)
    ensures
        json_unescape(json_escape(s)) == Some(s),
    decreases s.len(),
{
    if s.len() == 0 {
        assert(json_escape(s) =~= Seq::<char>::empty());
    } else {
        let c = s[0];
        let t = json_escape(s);
        let tail = json_escape(s.drop_first());
        assert(t == json_escape_char(c) + tail);
        lemma_json_unescape_escape(s.drop_first());
        assert(seq![c] + s.drop_first() =~= s);
        if c == '"' || c == '\\' || c == '\u{8}' || c == '\t' || c == '\n' || c == '\u{c}' || c
            == '\r' {
            assert(t.skip(2) =~= tail);
        } else if (c as u32) < 0x20 {
            let code = c as u32;
            let high: u8 = (code / 16) as u8;
            let low: u8 = (code % 16) as u8;
            assert(t[4] == hex_digit_char(high) && t[5] == hex_digit_char(low));
            lemma_hex_digit_round_trip(high);
            lemma_hex_digit_round_trip(low);
            lemma_control_code_char(c);
            assert((high * 16 + low) as u8 == code as u8);
            assert(t.skip(6) =~= tail);
        } else {
            assert(t.drop_first() =~= tail);
        }
    }
}

/// Relies on `String::push`, which std documents as appending the given
/// character to the end of this `String`.
#[verifier::external_body]
fn push_char(s: &mut String, c: char)
    ensures
        final(s)@ == old(s)@.push(c),
{
    s.push(c);
}

/// The hexadecimal digit character for a value below sixteen.
fn hex_digit(n: u8) -> (c: char)
    requires
        n < 16,
    ensures
        c == hex_digit_char(n),
{
    if n == 0 {
        '0'
    } else if n == 1 {
        '1'
    } else if n == 2 {
        '2'
    } else if n == 3 {
        '3'
    } else if n == 4 {
        '4'
    } else if n == 5 {
        '5'
    } else if n == 6 {
        '6'
    } else if n == 7 {
        '7'
    } else if n == 8 {
        '8'
    } else if n == 9 {
        '9'
    } else if n == 10 {
        'a'
    } else if n == 11 {
        'b'
    } else if n == 12 {
        'c'
    } else if n == 13 {
        'd'
    } else if n == 14 {
        'e'
    } else {
        'f'
    }
}

/// Appends the JSON encoding of one character to `out`.
fn push_escaped_char(out: &mut String, c: char)
    ensures
        final(out)@ == old(out)@ + json_escape_char(c),
{
    if c == '"' {
        push_char(out, '\\');
        push_char(out, '"');
    } else if c == '\\' {
        push_char(out, '\\');
        push_char(out, '\\');
    } else if c == '\u{8}' {
        push_char(out, '\\');
        push_char(out, 'b');
    } else if c == '\t' {
        push_char(out, '\\');
        push_char(out, 't');
    } else if c == '\n' {
        push_char(out, '\\');
        push_char(out, 'n');
    } else if c == '\u{c}' {
        push_char(out, '\\');
        push_char(out, 'f');
    } else if c == '\r' {
        push_char(out, '\\');
        push_char(out, 'r');
    } else if (c as u32) < 0x20 {
        let high: u8 = (c as u32 / 16) as u8;
        let low: u8 = (c as u32 % 16) as u8;
        push_char(out, '\\');
        push_char(out, 'u');
        push_char(out, '0');
        push_char(out, '0');
        push_char(out, hex_digit(high));
        push_char(out, hex_digit(low));
    } else {
        push_char(out, c);
    }
    proof {
        assert(final(out)@ =~= old(out)@ + json_escape_char(c));
    }
}

/// Computes the JSON encoding of a string, character by character.
pub fn json_escape_str(s: &str) -> (out: String)
    ensures
        out@ == json_escape(s@),
{
    let mut out = String::new();
    let len = s.unicode_len();
    let mut i: usize = 0;
    proof {
        assert(s@.subrange(0, 0) =~= Seq::<char>::empty());
    }
    while i < len
        invariant
            len == s@.len(),
            i <= len,
            out@ == json_escape(s@.subrange(0, i as int)),
        decreases len - i,
    {
        let c = s.get_char(i);
        proof {
            lemma_json_escape_push(s@.subrange(0, i as int), c);
            assert(s@.subrange(0, i as int).push(c) =~= s@.subrange(0, i as int + 1));
        }
        push_escaped_char(&mut out, c);
        i = i + 1;
    }
    proof {
        assert(s@.subrange(0, len as int) =~= s@);
    }
    out
}

} // verus!
