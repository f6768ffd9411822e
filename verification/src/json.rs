//! The JSON string-literal layer of the persisted format: how a text is
//! escaped into a JSON string literal and how such a literal is read back.
//! The main result is that reading inverts writing for every text.

use vstd::prelude::*;

verus! {

/// JSON inter-token whitespace.
pub open spec fn is_ws(c: char) -> bool {
    c == ' ' || c == '\n' || c == '\r' || c == '\t'
}

/// The lower-case hexadecimal digit with value `n` (0 to 15).
pub open spec fn hex_digit(n: int) -> char {
    if n == 0 { '0' }
    else if n == 1 { '1' }
    else if n == 2 { '2' }
    else if n == 3 { '3' }
    else if n == 4 { '4' }
    else if n == 5 { '5' }
    else if n == 6 { '6' }
    else if n == 7 { '7' }
    else if n == 8 { '8' }
    else if n == 9 { '9' }
    else if n == 10 { 'a' }
    else if n == 11 { 'b' }
    else if n == 12 { 'c' }
    else if n == 13 { 'd' }
    else if n == 14 { 'e' }
    else { 'f' }
}

/// The value of a hexadecimal digit, or -1 for any other character.
pub open spec fn hex_val(c: char) -> int {
    if c == '0' { 0 }
    else if c == '1' { 1 }
    else if c == '2' { 2 }
    else if c == '3' { 3 }
    else if c == '4' { 4 }
    else if c == '5' { 5 }
    else if c == '6' { 6 }
    else if c == '7' { 7 }
    else if c == '8' { 8 }
    else if c == '9' { 9 }
    else if c == 'a' || c == 'A' { 10 }
    else if c == 'b' || c == 'B' { 11 }
    else if c == 'c' || c == 'C' { 12 }
    else if c == 'd' || c == 'D' { 13 }
    else if c == 'e' || c == 'E' { 14 }
    else if c == 'f' || c == 'F' { 15 }
    else { -1 }
}

/// Whether `c` is a hexadecimal digit.
pub open spec fn is_hex(c: char) -> bool {
    hex_val(c) >= 0
}

/// How one character appears inside a JSON string literal: itself, a
/// two-character escape, or a `\u00xx` escape for the remaining control
/// characters.
pub open spec fn escape_char(c: char) -> Seq<char> {
    if c == '"' { seq!['\\', '"'] }
    else if c == '\\' { seq!['\\', '\\'] }
    else if c == '\u{8}' { seq!['\\', 'b'] }
    else if c == '\u{c}' { seq!['\\', 'f'] }
    else if c == '\n' { seq!['\\', 'n'] }
    else if c == '\r' { seq!['\\', 'r'] }
    else if c == '\t' { seq!['\\', 't'] }
    else if (c as u32) < 32 {
        seq!['\\', 'u', '0', '0', hex_digit((c as u32) as int / 16), hex_digit((c as u32) as int % 16)]
    }
    else { seq![c] }
}

/// A text as it appears between the quotes of a JSON string literal.
pub open spec fn escape_string(s: Seq<char>) -> Seq<char>
    decreases s.len(),
{
    if s.len() == 0 {
        Seq::<char>::empty()
    } else {
        escape_char(s[0]) + escape_string(s.drop_first())
    }
}

/// A complete JSON string literal for the text `s`.
pub open spec fn quoted(s: Seq<char>) -> Seq<char> {
    seq!['"'] + escape_string(s) + seq!['"']
}

/// The character denoted by a single-letter escape, if any.
pub open spec fn unescape_char(e: char) -> Option<char> {
    if e == '"' { Some('"') }
    else if e == '\\' { Some('\\') }
    else if e == '/' { Some('/') }
    else if e == 'b' { Some('\u{8}') }
    else if e == 'f' { Some('\u{c}') }
    else if e == 'n' { Some('\n') }
    else if e == 'r' { Some('\r') }
    else if e == 't' { Some('\t') }
    else { None }
}

/// The control character with scalar value `v` (0 to 31).
pub open spec fn low_char(v: int) -> char {
    (v as u32) as char
}

/// Read the inside of a JSON string literal up to and including its
/// closing quote: the decoded text and the input remaining after the
/// quote. `None` on any ill-formed literal, including raw control
/// characters and unknown or out-of-range escapes.
pub open spec fn parse_string_body(s: Seq<char>) -> Option<(Seq<char>, Seq<char>)>
    decreases s.len(),
{
    if s.len() == 0 {
        None
    } else if s[0] == '"' {
        Some((Seq::<char>::empty(), s.drop_first()))
    } else if s[0] == '\\' {
        if s.len() < 2 {
            None
        } else {
            let e = s[1];
            if e == 'u' {
                if s.len() < 6 {
                    None
                } else if s[2] == '0' && s[3] == '0' && is_hex(s[4]) && is_hex(s[5])
                    && hex_val(s[4]) * 16 + hex_val(s[5]) < 32 {
                    match parse_string_body(s.skip(6)) {
                        Some(p) => Some((seq![low_char(hex_val(s[4]) * 16 + hex_val(s[5]))] + p.0, p.1)),
                        None => None,
                    }
                } else {
                    None
                }
            } else {
                match unescape_char(e) {
                    Some(c) => match parse_string_body(s.skip(2)) {
                        Some(p) => Some((seq![c] + p.0, p.1)),
                        None => None,
                    },
                    None => None,
                }
            }
        }
    } else if (s[0] as u32) < 32 {
        None
    } else {
        match parse_string_body(s.drop_first()) {
            Some(p) => Some((seq![s[0]] + p.0, p.1)),
            None => None,
        }
    }
}

/// Reading a written string literal gives back exactly the original text,
/// whatever follows the literal.
pub proof fn lemma_string_round_trip(s: Seq<char>, rest: Seq<char>)
    ensures
        parse_string_body(escape_string(s) + seq!['"'] + rest) == Some((s, rest)),
    decreases s.len(),
{
    let enc = escape_string(s) + seq!['"'] + rest;
    if s.len() == 0 {
        assert(enc =~= seq!['"'] + rest);
        assert(enc[0] == '"');
        assert(enc.drop_first() =~= rest);
    } else {
        let c = s[0];
        let t = s.drop_first();
        lemma_string_round_trip(t, rest);
        let tail_enc = escape_string(t) + seq!['"'] + rest;
        assert(enc =~= escape_char(c) + tail_enc);
        assert(seq![c] + t =~= s);
        if c == '"' || c == '\\' || c == '\u{8}' || c == '\u{c}' || c == '\n' || c == '\r'
            || c == '\t' {
            assert(escape_char(c).len() == 2);
            assert(enc[0] == '\\');
            assert(enc[1] == escape_char(c)[1]);
            assert(unescape_char(escape_char(c)[1]) == Some(c));
            assert(enc.skip(2) =~= tail_enc);
        } else if (c as u32) < 32 {
            let v = (c as u32) as int;
            assert(0 <= v < 32);
            let h1 = hex_digit(v / 16);
            let h2 = hex_digit(v % 16);
            assert(escape_char(c) == seq!['\\', 'u', '0', '0', h1, h2]);
            assert(enc[0] == '\\');
            assert(enc[1] == 'u');
            assert(enc[2] == '0');
            assert(enc[3] == '0');
            assert(enc[4] == h1);
            assert(enc[5] == h2);
            assert(hex_val(h1) == v / 16);
            assert(hex_val(h2) == v % 16);
            assert(hex_val(enc[4]) * 16 + hex_val(enc[5]) == v);
            vstd::utf8::char_u32_cast(c, c as u32);
            assert(low_char(v) == c);
            assert(enc.skip(6) =~= tail_enc);
        } else {
            assert(escape_char(c) == seq![c]);
            assert(enc[0] == c);
            assert(enc.drop_first() =~= tail_enc);
        }
    }
}

} // verus!
