//! The JSON layer of the library.  A text is parsed as one top-level object;
//! the syntax is full JSON (RFC 8259): objects, arrays, numbers, the literal
//! names, strings with the two-character escapes and `\uXXXX` (surrogate
//! pairs included), insignificant whitespace, and raw control characters
//! rejected inside strings.  What a parse yields is the object's member
//! list: each member's name, and its decoded content when the value is a
//! string — values of any other shape are validated and skipped, as a typed
//! decoder ignores members it does not read.
//!
//! The encoder emits the canonical form: no whitespace, members in the order
//! given, every control character escaped.  Encoding followed by parsing is
//! proved to reproduce the members exactly.

use vstd::prelude::*;
use vstd::utf8::is_scalar;

verus! {

// ---------------------------------------------------------------------------
// Grammar, specification level.  Each parser consumes a prefix of the
// remaining character sequence and returns what it recognised together with
// the characters that follow.
// ---------------------------------------------------------------------------

/// The whitespace characters the grammar ignores between tokens.
pub open spec fn is_json_ws(c: char) -> bool {
    c == ' ' || c == '\n' || c == '\r' || c == '\t'
}

/// The remaining input once leading whitespace is consumed.
pub open spec fn sp_skip_ws(s: Seq<char>) -> Seq<char>
    decreases s.len(),
{
    if s.len() > 0 && is_json_ws(s[0]) {
        sp_skip_ws(s.skip(1))
    } else {
        s
    }
}

/// The character denoted by the escape code `c` in a two-character `\c`
/// escape, if any.
pub open spec fn unescape_char(c: char) -> Option<char> {
    if c == '"' {
        Some('"')
    } else if c == '\\' {
        Some('\\')
    } else if c == '/' {
        Some('/')
    } else if c == 'b' {
        Some('\u{8}')
    } else if c == 'f' {
        Some('\u{c}')
    } else if c == 'n' {
        Some('\n')
    } else if c == 't' {
        Some('\t')
    } else if c == 'r' {
        Some('\r')
    } else {
        None
    }
}

/// The numeric value of a hexadecimal digit.
pub open spec fn hex_digit(c: char) -> Option<u32> {
    let u = c as u32;
    if 48 <= u && u <= 57 {
        Some((u - 48) as u32)
    } else if 97 <= u && u <= 102 {
        Some((u - 87) as u32)
    } else if 65 <= u && u <= 70 {
        Some((u - 55) as u32)
    } else {
        None
    }
}

/// The value of the four hexadecimal digits at the head of `s`.
pub open spec fn sp_hex4(s: Seq<char>) -> Option<u32> {
    if s.len() >= 4 {
        match hex_digit(s[0]) {
            Some(a) => match hex_digit(s[1]) {
                Some(b) => match hex_digit(s[2]) {
                    Some(c) => match hex_digit(s[3]) {
                        Some(d) => Some((a * 4096 + b * 256 + c * 16 + d) as u32),
                        None => None,
                    },
                    None => None,
                },
                None => None,
            },
            None => None,
        }
    } else {
        None
    }
}

/// A `\uXXXX` escape at the head of `s` (which starts with `\u`): the
/// character it denotes and how many characters it spans — six, or twelve
/// for a surrogate pair.  A lone surrogate is an error.
pub open spec fn sp_unicode_escape(s: Seq<char>) -> Option<(char, int)> {
    if s.len() >= 6 {
        match sp_hex4(s.skip(2)) {
            Some(n) => {
                if n < 0xD800 || n >= 0xE000 {
                    Some(((n as char), 6))
                } else if n < 0xDC00 {
                    if s.len() >= 12 && s[6] == '\\' && s[7] == 'u' {
                        match sp_hex4(s.skip(8)) {
                            Some(lo) => if 0xDC00 <= lo && lo < 0xE000 {
                                Some(
                                    (
                                        (((0x10000 + (n - 0xD800) * 0x400 + (lo
                                            - 0xDC00)) as u32) as char),
                                        12,
                                    ),
                                )
                            } else {
                                None
                            },
                            None => None,
                        }
                    } else {
                        None
                    }
                } else {
                    None
                }
            },
            None => None,
        }
    } else {
        None
    }
}

/// Parses string content up to and including the closing quote; `s` starts
/// just after the opening quote.  Returns the decoded value and the rest.
/// Raw control characters are not allowed inside a string.
pub open spec fn sp_chars(s: Seq<char>) -> Option<(Seq<char>, Seq<char>)>
    decreases s.len(),
{
    if s.len() == 0 {
        None
    } else if s[0] == '"' {
        Some((Seq::<char>::empty(), s.skip(1)))
    } else if s[0] == '\\' {
        if s.len() >= 2 {
            if s[1] == 'u' {
                match sp_unicode_escape(s) {
                    Some(e) => match sp_chars(s.skip(e.1)) {
                        Some(t) => Some((seq![e.0] + t.0, t.1)),
                        None => None,
                    },
                    None => None,
                }
            } else {
                match unescape_char(s[1]) {
                    Some(c) => match sp_chars(s.skip(2)) {
                        Some(t) => Some((seq![c] + t.0, t.1)),
                        None => None,
                    },
                    None => None,
                }
            }
        } else {
            None
        }
    } else if (s[0] as u32) < 32 {
        None
    } else {
        match sp_chars(s.skip(1)) {
            Some(t) => Some((seq![s[0]] + t.0, t.1)),
            None => None,
        }
    }
}

/// Parses a string literal, opening quote included.
pub open spec fn sp_string(s: Seq<char>) -> Option<(Seq<char>, Seq<char>)> {
    if s.len() > 0 && s[0] == '"' {
        sp_chars(s.skip(1))
    } else {
        None
    }
}

pub proof fn lemma_sp_skip_ws_len(s: Seq<char>)
    ensures
        sp_skip_ws(s).len() <= s.len(),
    decreases s.len(),
{
    if s.len() > 0 && is_json_ws(s[0]) {
        lemma_sp_skip_ws_len(s.skip(1));
    }
}

pub proof fn lemma_sp_chars_len(s: Seq<char>)
    ensures
        sp_chars(s) matches Some(t) ==> t.1.len() < s.len(),
    decreases s.len(),
{
    if s.len() == 0 {
    } else if s[0] == '"' {
    } else if s[0] == '\\' {
        if s.len() >= 2 {
            if s[1] == 'u' {
                if sp_unicode_escape(s) is Some {
                    let e = sp_unicode_escape(s)->Some_0;
                    lemma_sp_chars_len(s.skip(e.1));
                }
            } else {
                lemma_sp_chars_len(s.skip(2));
            }
        }
    } else {
        lemma_sp_chars_len(s.skip(1));
    }
}

// ---------------------------------------------------------------------------
// Numbers and literal names: scanned and validated, never interpreted.
// ---------------------------------------------------------------------------

/// A decimal digit.
pub open spec fn is_digit(c: char) -> bool {
    48 <= (c as u32) && (c as u32) <= 57
}

/// The remaining input once leading decimal digits are consumed.
pub open spec fn sp_skip_digits(s: Seq<char>) -> Seq<char>
    decreases s.len(),
{
    if s.len() > 0 && is_digit(s[0]) {
        sp_skip_digits(s.skip(1))
    } else {
        s
    }
}

/// The optional exponent after a number's integer and fraction parts.
pub open spec fn sp_number_exp(s: Seq<char>) -> Option<Seq<char>> {
    if s.len() > 0 && (s[0] == 'e' || s[0] == 'E') {
        let s1 = if s.len() >= 2 && (s[1] == '+' || s[1] == '-') {
            s.skip(2)
        } else {
            s.skip(1)
        };
        if s1.len() > 0 && is_digit(s1[0]) {
            Some(sp_skip_digits(s1.skip(1)))
        } else {
            None
        }
    } else {
        Some(s)
    }
}

/// The optional fraction and exponent after a number's integer part.
pub open spec fn sp_number_frac(s: Seq<char>) -> Option<Seq<char>> {
    if s.len() > 0 && s[0] == '.' {
        if s.len() >= 2 && is_digit(s[1]) {
            sp_number_exp(sp_skip_digits(s.skip(2)))
        } else {
            None
        }
    } else {
        sp_number_exp(s)
    }
}

/// Parses a number (optional sign, integer part without a leading zero,
/// optional fraction and exponent); returns the rest.
pub open spec fn sp_number(s: Seq<char>) -> Option<Seq<char>> {
    let s1 = if s.len() > 0 && s[0] == '-' {
        s.skip(1)
    } else {
        s
    };
    if s1.len() > 0 && s1[0] == '0' {
        sp_number_frac(s1.skip(1))
    } else if s1.len() > 0 && is_digit(s1[0]) {
        sp_number_frac(sp_skip_digits(s1.skip(1)))
    } else {
        None
    }
}

/// Parses the literal names `true`, `false` and `null`; returns the rest.
pub open spec fn sp_literal(s: Seq<char>) -> Option<Seq<char>> {
    if s.len() >= 4 && s[0] == 't' && s[1] == 'r' && s[2] == 'u' && s[3] == 'e' {
        Some(s.skip(4))
    } else if s.len() >= 5 && s[0] == 'f' && s[1] == 'a' && s[2] == 'l' && s[3] == 's' && s[4]
        == 'e' {
        Some(s.skip(5))
    } else if s.len() >= 4 && s[0] == 'n' && s[1] == 'u' && s[2] == 'l' && s[3] == 'l' {
        Some(s.skip(4))
    } else {
        None
    }
}

// ---------------------------------------------------------------------------
// Values, members, arrays: one mutually recursive group.  `fuel` bounds the
// recursion; a parse starts with fuel equal to the text's length, and every
// step down to a smaller fuel follows at least one consumed character, so
// the bound never binds on a well-formed text.
// ---------------------------------------------------------------------------

/// Parses one JSON value.  A string value carries its decoded content
/// (`Some`); a value of any other shape is validated and skipped (`None`).
pub open spec fn sp_value(s: Seq<char>, fuel: nat) -> Option<(Option<Seq<char>>, Seq<char>)>
    decreases fuel, s.len(), 0int,
{
    if fuel == 0 {
        None
    } else if s.len() == 0 {
        None
    } else if s[0] == '"' {
        match sp_chars(s.skip(1)) {
            Some(t) => Some((Some(t.0), t.1)),
            None => None,
        }
    } else if s[0] == '{' {
        match sp_object_rest(sp_skip_ws(s.skip(1)), (fuel - 1) as nat) {
            Some(rest) => Some((None, rest)),
            None => None,
        }
    } else if s[0] == '[' {
        match sp_array_rest(sp_skip_ws(s.skip(1)), (fuel - 1) as nat) {
            Some(rest) => Some((None, rest)),
            None => None,
        }
    } else if s[0] == 't' || s[0] == 'f' || s[0] == 'n' {
        match sp_literal(s) {
            Some(rest) => Some((None, rest)),
            None => None,
        }
    } else {
        match sp_number(s) {
            Some(rest) => Some((None, rest)),
            None => None,
        }
    }
}

/// Parses an object's members and closing brace, the brace consumed; `s`
/// starts after the opening brace and its whitespace.
pub open spec fn sp_object_rest(s: Seq<char>, fuel: nat) -> Option<Seq<char>>
    decreases fuel, s.len(), 3int,
{
    if fuel == 0 {
        None
    } else if s.len() > 0 && s[0] == '}' {
        Some(s.skip(1))
    } else {
        match sp_members(s, fuel) {
            Some(m) => if m.1.len() > 0 && m.1[0] == '}' {
                Some(m.1.skip(1))
            } else {
                None
            },
            None => None,
        }
    }
}

/// Parses one `"key" : value` member.
pub open spec fn sp_pair(s: Seq<char>, fuel: nat) -> Option<
    ((Seq<char>, Option<Seq<char>>), Seq<char>),
>
    decreases fuel, s.len(), 1int,
    via sp_pair_decreases
{
    if fuel == 0 {
        None
    } else {
        match sp_string(s) {
            Some(k) => {
                let r1 = sp_skip_ws(k.1);
                if r1.len() > 0 && r1[0] == ':' {
                    let r2 = sp_skip_ws(r1.skip(1));
                    match sp_value(r2, fuel) {
                        Some(v) => Some(((k.0, v.0), v.1)),
                        None => None,
                    }
                } else {
                    None
                }
            },
            None => None,
        }
    }
}

#[via_fn]
proof fn sp_pair_decreases(s: Seq<char>, fuel: nat) {
    if fuel > 0 && sp_string(s) is Some {
        let k = sp_string(s)->Some_0;
        if s.len() > 0 && s[0] == '"' {
            lemma_sp_chars_len(s.skip(1));
        }
        lemma_sp_skip_ws_len(k.1);
        let r1 = sp_skip_ws(k.1);
        if r1.len() > 0 && r1[0] == ':' {
            lemma_sp_skip_ws_len(r1.skip(1));
        }
    }
}

/// Parses a non-empty member list, commas and surrounding whitespace
/// included; also consumes the whitespace after the last member.
pub open spec fn sp_members(s: Seq<char>, fuel: nat) -> Option<
    (Seq<(Seq<char>, Option<Seq<char>>)>, Seq<char>),
>
    decreases fuel, s.len(), 2int,
{
    if fuel == 0 {
        None
    } else {
        match sp_pair(s, fuel) {
            Some(p) => {
                let r1 = sp_skip_ws(p.1);
                if r1.len() > 0 && r1[0] == ',' {
                    match sp_members(sp_skip_ws(r1.skip(1)), (fuel - 1) as nat) {
                        Some(m) => Some((seq![p.0] + m.0, m.1)),
                        None => None,
                    }
                } else {
                    Some((seq![p.0], r1))
                }
            },
            None => None,
        }
    }
}

/// Parses an array's elements and closing bracket, the bracket consumed;
/// `s` starts after the opening bracket and its whitespace.
pub open spec fn sp_array_rest(s: Seq<char>, fuel: nat) -> Option<Seq<char>>
    decreases fuel, s.len(), 3int,
{
    if fuel == 0 {
        None
    } else if s.len() > 0 && s[0] == ']' {
        Some(s.skip(1))
    } else {
        match sp_elements(s, fuel) {
            Some(rest) => if rest.len() > 0 && rest[0] == ']' {
                Some(rest.skip(1))
            } else {
                None
            },
            None => None,
        }
    }
}

/// Parses a non-empty element list, commas and surrounding whitespace
/// included; also consumes the whitespace after the last element.
pub open spec fn sp_elements(s: Seq<char>, fuel: nat) -> Option<Seq<char>>
    decreases fuel, s.len(), 2int,
{
    if fuel == 0 {
        None
    } else {
        match sp_value(s, fuel) {
            Some(v) => {
                let r1 = sp_skip_ws(v.1);
                if r1.len() > 0 && r1[0] == ',' {
                    sp_elements(sp_skip_ws(r1.skip(1)), (fuel - 1) as nat)
                } else {
                    Some(r1)
                }
            },
            None => None,
        }
    }
}

/// Parses a whole text as one object; every character must be consumed.
pub open spec fn sp_object(s: Seq<char>) -> Option<Seq<(Seq<char>, Option<Seq<char>>)>> {
    let r0 = sp_skip_ws(s);
    if r0.len() > 0 && r0[0] == '{' {
        let r1 = sp_skip_ws(r0.skip(1));
        if r1.len() > 0 && r1[0] == '}' {
            if sp_skip_ws(r1.skip(1)).len() == 0 {
                Some(Seq::<(Seq<char>, Option<Seq<char>>)>::empty())
            } else {
                None
            }
        } else {
            match sp_members(r1, s.len() as nat) {
                Some(m) => {
                    if m.1.len() > 0 && m.1[0] == '}' && sp_skip_ws(m.1.skip(1)).len() == 0 {
                        Some(m.0)
                    } else {
                        None
                    }
                },
                None => None,
            }
        }
    } else {
        None
    }
}

/// The first member named `key`, if any: `Some` content for a string value,
/// `None` for a value of another shape.
pub open spec fn sp_lookup(ps: Seq<(Seq<char>, Option<Seq<char>>)>, key: Seq<char>) -> Option<
    Option<Seq<char>>,
>
    decreases ps.len(),
{
    if ps.len() == 0 {
        None
    } else if ps[0].0 == key {
        Some(ps[0].1)
    } else {
        sp_lookup(ps.skip(1), key)
    }
}

/// How many members carry the name `key`.
pub open spec fn sp_key_count(ps: Seq<(Seq<char>, Option<Seq<char>>)>, key: Seq<char>) -> nat
    decreases ps.len(),
{
    if ps.len() == 0 {
        0
    } else {
        (if ps[0].0 == key {
            1nat
        } else {
            0nat
        }) + sp_key_count(ps.skip(1), key)
    }
}

/// Parses `s` as an object and reads its string field `key`.  The field
/// must occur exactly once and its value must be a string; a missing or
/// duplicate field, or a value of another shape, is an error.
pub open spec fn sp_decode_field(s: Seq<char>, key: Seq<char>) -> Option<Seq<char>> {
    match sp_object(s) {
        Some(ps) => {
            if sp_key_count(ps, key) == 1 {
                match sp_lookup(ps, key) {
                    Some(v) => v,
                    None => None,
                }
            } else {
                None
            }
        },
        None => None,
    }
}

// ---------------------------------------------------------------------------
// Encoder, specification level: the canonical text of an object whose
// members are string fields.
// ---------------------------------------------------------------------------

/// The lowercase hexadecimal digit of a value below sixteen.
pub open spec fn hex_char(n: int) -> char {
    if n == 0 {
        '0'
    } else if n == 1 {
        '1'
    } else if n == 2 {
        '2'
    } else if n == 3 {
        '3'
    } else if n == 4 {
        '4'
    } else if n == 5 {
        '5'
    } else if n == 6 {
        '6'
    } else if n == 7 {
        '7'
    } else if n == 8 {
        '8'
    } else if n == 9 {
        '9'
    } else if n == 10 {
        'a'
    } else if n == 11 {
        'b'
    } else if n == 12 {
        'c'
    } else if n == 13 {
        'd'
    } else if n == 14 {
        'e'
    } else {
        'f'
    }
}

/// How one character is written inside a string literal: the named escapes
/// for the characters that have one, `\u00XX` for the other control
/// characters, and the character itself otherwise.
pub open spec fn escape_char(c: char) -> Seq<char> {
    if c == '"' {
        seq!['\\', '"']
    } else if c == '\\' {
        seq!['\\', '\\']
    } else if c == '\n' {
        seq!['\\', 'n']
    } else if c == '\t' {
        seq!['\\', 't']
    } else if c == '\r' {
        seq!['\\', 'r']
    } else if c == '\u{8}' {
        seq!['\\', 'b']
    } else if c == '\u{c}' {
        seq!['\\', 'f']
    } else if (c as u32) < 32 {
        seq![
            '\\',
            'u',
            '0',
            '0',
            hex_char(((c as u32) / 16) as int),
            hex_char(((c as u32) % 16) as int),
        ]
    } else {
        seq![c]
    }
}

/// The escaped text of string content.
pub open spec fn sp_escape(s: Seq<char>) -> Seq<char>
    decreases s.len(),
{
    if s.len() == 0 {
        Seq::<char>::empty()
    } else {
        escape_char(s[0]) + sp_escape(s.skip(1))
    }
}

/// A string literal: quoted, escaped content.
pub open spec fn sp_encode_string(s: Seq<char>) -> Seq<char> {
    seq!['"'] + sp_escape(s) + seq!['"']
}

/// One `"key":"value"` member.
pub open spec fn sp_encode_pair(k: Seq<char>, v: Seq<char>) -> Seq<char> {
    sp_encode_string(k) + seq![':'] + sp_encode_string(v)
}

/// A comma-separated member list.
pub open spec fn sp_encode_members(ps: Seq<(Seq<char>, Seq<char>)>) -> Seq<char>
    decreases ps.len(),
{
    if ps.len() == 0 {
        Seq::<char>::empty()
    } else if ps.len() == 1 {
        sp_encode_pair(ps[0].0, ps[0].1)
    } else {
        sp_encode_pair(ps[0].0, ps[0].1) + seq![','] + sp_encode_members(ps.skip(1))
    }
}

/// The canonical text of a whole object of string fields.
pub open spec fn sp_encode_object(ps: Seq<(Seq<char>, Seq<char>)>) -> Seq<char> {
    seq!['{'] + sp_encode_members(ps) + seq!['}']
}

/// String fields as the parser reports them: each value marked a string.
pub open spec fn string_members(ps: Seq<(Seq<char>, Seq<char>)>) -> Seq<
    (Seq<char>, Option<Seq<char>>),
> {
    Seq::new(ps.len(), |i: int| (ps[i].0, Some(ps[i].1)))
}

// ---------------------------------------------------------------------------
// Round trip: parsing the canonical text of an object gives the members back.
// ---------------------------------------------------------------------------

proof fn lemma_skip_ws_no_ws(s: Seq<char>)
    requires
        s.len() == 0 || !is_json_ws(s[0]),
    ensures
        sp_skip_ws(s) == s,
{
}

proof fn lemma_hex_char_digit(n: int)
    requires
        0 <= n < 16,
    ensures
        hex_digit(hex_char(n)) == Some(n as u32),
{
}

proof fn lemma_chars_round_trip(v: Seq<char>, rest: Seq<char>)
    ensures
        sp_chars(sp_escape(v) + seq!['"'] + rest) == Some((v, rest)),
    decreases v.len(),
{
    let s = sp_escape(v) + seq!['"'] + rest;
    if v.len() == 0 {
        assert(s =~= seq!['"'] + rest);
        assert(s.skip(1) =~= rest);
    } else {
        lemma_chars_round_trip(v.skip(1), rest);
        let c = v[0];
        let u = c as u32;
        let e = escape_char(c);
        assert(s =~= e + (sp_escape(v.skip(1)) + seq!['"'] + rest));
        assert(seq![c] + v.skip(1) =~= v);
        if e.len() == 1 {
            assert(s[0] == c);
            assert(c != '"' && c != '\\' && u >= 32);
            assert(s.skip(1) =~= sp_escape(v.skip(1)) + seq!['"'] + rest);
        } else if e.len() == 2 {
            assert(s[0] == '\\');
            assert(s[1] == e[1]);
            assert(e[1] != 'u');
            assert(unescape_char(e[1]) == Some(c));
            assert(s.skip(2) =~= sp_escape(v.skip(1)) + seq!['"'] + rest);
        } else {
            assert(e.len() == 6);
            assert(u < 32);
            assert(s[0] == '\\' && s[1] == 'u');
            assert(s.len() >= 7);
            assert(s[2] == '0' && s[3] == '0');
            assert(s[4] == hex_char((u / 16) as int));
            assert(s[5] == hex_char((u % 16) as int));
            lemma_hex_char_digit((u / 16) as int);
            lemma_hex_char_digit((u % 16) as int);
            let t = s.skip(2);
            assert(t.len() >= 4);
            assert(t[0] == s[2] && t[1] == s[3] && t[2] == s[4] && t[3] == s[5]);
            assert(hex_digit(t[0]) == Some(0u32));
            assert(hex_digit(t[1]) == Some(0u32));
            assert(hex_digit(t[2]) == Some((u / 16) as u32));
            assert(hex_digit(t[3]) == Some((u % 16) as u32));
            assert((u / 16) * 16 + (u % 16) == u);
            assert(sp_hex4(t) == Some(u));
            assert(u < 0xD800);
            vstd::utf8::char_u32_cast(c, u);
            assert((u as char) == c);
            assert(sp_unicode_escape(s) == Some((c, 6int)));
            assert(s.skip(6) =~= sp_escape(v.skip(1)) + seq!['"'] + rest);
        }
    }
}

proof fn lemma_string_round_trip(v: Seq<char>, rest: Seq<char>)
    ensures
        sp_string(sp_encode_string(v) + rest) == Some((v, rest)),
{
    let s = sp_encode_string(v) + rest;
    assert(s[0] == '"');
    assert(s.skip(1) =~= sp_escape(v) + seq!['"'] + rest);
    lemma_chars_round_trip(v, rest);
}

proof fn lemma_pair_round_trip(k: Seq<char>, v: Seq<char>, rest: Seq<char>, fuel: nat)
    requires
        fuel >= 1,
    ensures
        sp_pair(sp_encode_pair(k, v) + rest, fuel) == Some(((k, Some(v)), rest)),
{
    let s = sp_encode_pair(k, v) + rest;
    let tail1 = seq![':'] + sp_encode_string(v) + rest;
    assert(s =~= sp_encode_string(k) + tail1);
    lemma_string_round_trip(k, tail1);
    lemma_skip_ws_no_ws(tail1);
    assert(tail1[0] == ':');
    let tail2 = sp_encode_string(v) + rest;
    assert(tail1.skip(1) =~= tail2);
    assert(tail2[0] == '"');
    lemma_skip_ws_no_ws(tail2);
    assert(tail2.skip(1) =~= sp_escape(v) + seq!['"'] + rest);
    lemma_chars_round_trip(v, rest);
}

#[verifier::rlimit(100)]
proof fn lemma_members_round_trip(
    ps: Seq<(Seq<char>, Seq<char>)>,
    rest: Seq<char>,
    fuel: nat,
)
    requires
        ps.len() > 0,
        rest.len() > 0,
        !is_json_ws(rest[0]),
        rest[0] != ',',
        fuel >= ps.len(),
    ensures
        sp_members(sp_encode_members(ps) + rest, fuel) == Some((string_members(ps), rest)),
    decreases ps.len(),
{
    let s = sp_encode_members(ps) + rest;
    if ps.len() == 1 {
        lemma_pair_round_trip(ps[0].0, ps[0].1, rest, fuel);
        lemma_skip_ws_no_ws(rest);
        assert(seq![(ps[0].0, Some(ps[0].1))] =~= string_members(ps));
    } else {
        let tail1 = seq![','] + sp_encode_members(ps.skip(1)) + rest;
        assert(s =~= sp_encode_pair(ps[0].0, ps[0].1) + tail1);
        lemma_pair_round_trip(ps[0].0, ps[0].1, tail1, fuel);
        lemma_skip_ws_no_ws(tail1);
        assert(tail1[0] == ',');
        let tail2 = sp_encode_members(ps.skip(1)) + rest;
        assert(tail1.skip(1) =~= tail2);
        assert(sp_encode_members(ps.skip(1))[0] == '"');
        assert(tail2[0] == '"');
        lemma_skip_ws_no_ws(tail2);
        lemma_members_round_trip(ps.skip(1), rest, (fuel - 1) as nat);
        assert(seq![(ps[0].0, Some(ps[0].1))] + string_members(ps.skip(1)) =~= string_members(ps));
    }
}

proof fn lemma_encode_members_len(ps: Seq<(Seq<char>, Seq<char>)>)
    ensures
        ps.len() > 0 ==> sp_encode_members(ps).len() >= ps.len(),
    decreases ps.len(),
{
    if ps.len() > 1 {
        lemma_encode_members_len(ps.skip(1));
    }
}

/// Parsing the canonical text of any member list yields exactly that list.
pub proof fn lemma_object_round_trip(ps: Seq<(Seq<char>, Seq<char>)>)
    ensures
        sp_object(sp_encode_object(ps)) == Some(string_members(ps)),
{
    let s = sp_encode_object(ps);
    assert(s[0] == '{');
    lemma_skip_ws_no_ws(s);
    if ps.len() == 0 {
        assert(s =~= seq!['{', '}']);
        assert(s.skip(1) =~= seq!['}']);
        lemma_skip_ws_no_ws(s.skip(1));
        assert(s.skip(1).skip(1) =~= Seq::<char>::empty());
        assert(string_members(ps) =~= Seq::<(Seq<char>, Option<Seq<char>>)>::empty());
    } else {
        let tail = sp_encode_members(ps) + seq!['}'];
        assert(s.skip(1) =~= tail);
        assert(sp_encode_members(ps)[0] == '"');
        assert(tail[0] == '"');
        lemma_skip_ws_no_ws(tail);
        lemma_encode_members_len(ps);
        assert(s.len() >= ps.len() + 2);
        lemma_members_round_trip(ps, seq!['}'], s.len() as nat);
        assert(seq!['}'].skip(1) =~= Seq::<char>::empty());
    }
}

/// Round trip for an object of one field.
pub proof fn lemma_one_field_round_trip(key: Seq<char>, val: Seq<char>)
    ensures
        sp_object(sp_encode_object(seq![(key, val)])) == Some(seq![(key, Some(val))]),
        sp_decode_field(sp_encode_object(seq![(key, val)]), key) == Some(val),
{
    lemma_object_round_trip(seq![(key, val)]);
    let ps = seq![(key, Some(val))];
    let empty_ps = Seq::<(Seq<char>, Option<Seq<char>>)>::empty();
    assert(string_members(seq![(key, val)]) =~= ps);
    assert(ps.skip(1) =~= empty_ps);
    assert(sp_key_count(empty_ps, key) == 0);
    assert(sp_key_count(ps, key) == 1);
    assert(sp_lookup(ps, key) == Some(Some(val)));
}

/// Round trip for an object of two distinct fields.
pub proof fn lemma_two_field_round_trip(k1: Seq<char>, v1: Seq<char>, k2: Seq<char>, v2: Seq<char>)
    requires
        k1 != k2,
    ensures
        sp_decode_field(sp_encode_object(seq![(k1, v1), (k2, v2)]), k1) == Some(v1),
        sp_decode_field(sp_encode_object(seq![(k1, v1), (k2, v2)]), k2) == Some(v2),
{
    lemma_object_round_trip(seq![(k1, v1), (k2, v2)]);
    let ps = seq![(k1, Some(v1)), (k2, Some(v2))];
    let empty_ps = Seq::<(Seq<char>, Option<Seq<char>>)>::empty();
    assert(string_members(seq![(k1, v1), (k2, v2)]) =~= ps);
    assert(ps.skip(1) =~= seq![(k2, Some(v2))]);
    assert(seq![(k2, Some(v2))].skip(1) =~= empty_ps);
    assert(sp_key_count(empty_ps, k1) == 0);
    assert(sp_key_count(empty_ps, k2) == 0);
    assert(sp_key_count(seq![(k2, Some(v2))], k1) == 0);
    assert(sp_key_count(seq![(k2, Some(v2))], k2) == 1);
    assert(sp_key_count(ps, k1) == 1);
    assert(sp_key_count(ps, k2) == 1);
    assert(sp_lookup(ps, k1) == Some(Some(v1)));
    assert(sp_lookup(seq![(k2, Some(v2))], k2) == Some(Some(v2)));
    assert(sp_lookup(ps, k2) == Some(Some(v2)));
}

// ---------------------------------------------------------------------------
// Executable string plumbing.
// ---------------------------------------------------------------------------

/// Relies on `String::push`: appends exactly the one given character.
#[verifier::external_body]
fn push_char(out: &mut String, c: char)
    ensures
        final(out)@ == old(out)@ + seq![c],
{
    out.push(c)
}

/// Relies on `char::from_u32`: it succeeds exactly on Unicode scalar values
/// and returns the character with the given value.
#[verifier::external_body]
fn char_from_u32(n: u32) -> (r: Option<char>)
    ensures
        r is Some <==> is_scalar(n),
        r matches Some(c) ==> c as u32 == n,
{
    char::from_u32(n)
}

/// The characters of `s` as a vector.
pub fn str_to_chars(s: &str) -> (r: Vec<char>)
    ensures
        r@ == s@,
{
    let n = s.unicode_len();
    let mut r: Vec<char> = Vec::new();
    let mut k: usize = 0;
    while k < n
        invariant
            n == s@.len(),
            k <= n,
            r@ == s@.take(k as int),
        decreases n - k,
    {
        r.push(s.get_char(k));
        assert(s@.take(k as int).push(s@[k as int]) =~= s@.take(k as int + 1));
        k = k + 1;
    }
    assert(s@.take(n as int) =~= s@);
    r
}

/// The characters of `v` gathered back into a string.
pub fn chars_to_string(v: &Vec<char>) -> (r: String)
    ensures
        r@ == v@,
{
    let mut out = String::new();
    let mut k: usize = 0;
    while k < v.len()
        invariant
            k <= v@.len(),
            out@ == v@.take(k as int),
        decreases v@.len() - k,
    {
        push_char(&mut out, v[k]);
        assert(v@.take(k as int) + seq![v@[k as int]] =~= v@.take(k as int + 1));
        k = k + 1;
    }
    assert(v@.take(v@.len() as int) =~= v@);
    out
}

// ---------------------------------------------------------------------------
// Executable parser.  Each function consumes from index `i` of `s` and is
// proved to behave exactly as the specification parser on `s@.skip(i)`.
// ---------------------------------------------------------------------------

fn is_ws(c: char) -> (r: bool)
    ensures
        r == is_json_ws(c),
{
    c == ' ' || c == '\n' || c == '\r' || c == '\t'
}

fn is_digit_exec(c: char) -> (r: bool)
    ensures
        r == is_digit(c),
{
    let u = c as u32;
    48 <= u && u <= 57
}

fn unescape(c: char) -> (r: Option<char>)
    ensures
        r == unescape_char(c),
{
    if c == '"' {
        Some('"')
    } else if c == '\\' {
        Some('\\')
    } else if c == '/' {
        Some('/')
    } else if c == 'b' {
        Some('\u{8}')
    } else if c == 'f' {
        Some('\u{c}')
    } else if c == 'n' {
        Some('\n')
    } else if c == 't' {
        Some('\t')
    } else if c == 'r' {
        Some('\r')
    } else {
        None
    }
}

fn hex_digit_exec(c: char) -> (r: Option<u32>)
    ensures
        r == hex_digit(c),
        r matches Some(v) ==> v <= 15,
{
    let u = c as u32;
    if 48 <= u && u <= 57 {
        Some(u - 48)
    } else if 97 <= u && u <= 102 {
        Some(u - 87)
    } else if 65 <= u && u <= 70 {
        Some(u - 55)
    } else {
        None
    }
}

fn skip_ws(s: &Vec<char>, i: usize) -> (j: usize)
    requires
        i <= s@.len(),
    ensures
        i <= j <= s@.len(),
        s@.skip(j as int) == sp_skip_ws(s@.skip(i as int)),
{
    let mut j: usize = i;
    while j < s.len() && is_ws(s[j])
        invariant
            i <= j <= s@.len(),
            sp_skip_ws(s@.skip(i as int)) == sp_skip_ws(s@.skip(j as int)),
        decreases s@.len() - j,
    {
        proof {
            assert(s@.skip(j as int)[0] == s@[j as int]);
            assert(s@.skip(j as int).skip(1) =~= s@.skip(j as int + 1));
        }
        j = j + 1;
    }
    proof {
        if j < s@.len() {
            assert(s@.skip(j as int)[0] == s@[j as int]);
            assert(sp_skip_ws(s@.skip(j as int)) == s@.skip(j as int));
        } else {
            assert(s@.skip(j as int) =~= Seq::<char>::empty());
        }
    }
    j
}

fn skip_digits(s: &Vec<char>, i: usize) -> (j: usize)
    requires
        i <= s@.len(),
    ensures
        i <= j <= s@.len(),
        s@.skip(j as int) == sp_skip_digits(s@.skip(i as int)),
{
    let mut j: usize = i;
    while j < s.len() && is_digit_exec(s[j])
        invariant
            i <= j <= s@.len(),
            sp_skip_digits(s@.skip(i as int)) == sp_skip_digits(s@.skip(j as int)),
        decreases s@.len() - j,
    {
        proof {
            assert(s@.skip(j as int)[0] == s@[j as int]);
            assert(s@.skip(j as int).skip(1) =~= s@.skip(j as int + 1));
        }
        j = j + 1;
    }
    proof {
        if j < s@.len() {
            assert(s@.skip(j as int)[0] == s@[j as int]);
            assert(sp_skip_digits(s@.skip(j as int)) == s@.skip(j as int));
        } else {
            assert(s@.skip(j as int) =~= Seq::<char>::empty());
        }
    }
    j
}

fn parse_hex4(s: &Vec<char>, i: usize) -> (r: Option<u32>)
    requires
        i <= s@.len(),
    ensures
        r == sp_hex4(s@.skip(i as int)),
        r matches Some(n) ==> n <= 0xFFFF,
{
    proof {
        assert forall|k: int| 0 <= k < s@.skip(i as int).len() implies s@.skip(i as int)[k] == s@[i
            + k] by {};
    }
    if s.len() - i >= 4 {
        match hex_digit_exec(s[i]) {
            Some(a) => match hex_digit_exec(s[i + 1]) {
                Some(b) => match hex_digit_exec(s[i + 2]) {
                    Some(c) => match hex_digit_exec(s[i + 3]) {
                        Some(d) => Some(a * 4096 + b * 256 + c * 16 + d),
                        None => None,
                    },
                    None => None,
                },
                None => None,
            },
            None => None,
        }
    } else {
        None
    }
}

fn parse_unicode_escape(s: &Vec<char>, i: usize) -> (r: Option<(char, usize)>)
    requires
        i <= s@.len(),
    ensures
        r matches Some(t) ==> i + 6 <= t.1 <= s@.len() && sp_unicode_escape(s@.skip(i as int))
            == Some((t.0, t.1 - i)),
        r is None ==> sp_unicode_escape(s@.skip(i as int)) is None,
{
    proof {
        assert forall|k: int| 0 <= k < s@.skip(i as int).len() implies s@.skip(i as int)[k] == s@[i
            + k] by {};
    }
    if s.len() - i >= 6 {
        assert(s@.skip(i as int).skip(2) =~= s@.skip(i as int + 2));
        match parse_hex4(s, i + 2) {
            Some(n) => {
                if n < 0xD800 || n >= 0xE000 {
                    match char_from_u32(n) {
                        Some(c) => {
                            proof {
                                vstd::utf8::char_u32_cast(c, n);
                            }
                            Some((c, i + 6))
                        },
                        None => {
                            proof {
                                assert(false);
                            }
                            None
                        },
                    }
                } else if n < 0xDC00 {
                    if s.len() - i >= 12 && s[i + 6] == '\\' && s[i + 7] == 'u' {
                        assert(s@.skip(i as int).skip(8) =~= s@.skip(i as int + 8));
                        match parse_hex4(s, i + 8) {
                            Some(lo) => {
                                if 0xDC00 <= lo && lo < 0xE000 {
                                    let code: u32 = 0x10000 + (n - 0xD800) * 0x400 + (lo - 0xDC00);
                                    match char_from_u32(code) {
                                        Some(c) => {
                                            proof {
                                                vstd::utf8::char_u32_cast(c, code);
                                            }
                                            Some((c, i + 12))
                                        },
                                        None => {
                                            proof {
                                                assert(false);
                                            }
                                            None
                                        },
                                    }
                                } else {
                                    None
                                }
                            },
                            None => None,
                        }
                    } else {
                        None
                    }
                } else {
                    None
                }
            },
            None => None,
        }
    } else {
        None
    }
}

fn parse_chars(s: &Vec<char>, i: usize) -> (r: Option<(Vec<char>, usize)>)
    requires
        i <= s@.len(),
    ensures
        r matches Some(t) ==> i < t.1 <= s@.len() && sp_chars(s@.skip(i as int)) == Some(
            (t.0@, s@.skip(t.1 as int)),
        ),
        r is None ==> sp_chars(s@.skip(i as int)) is None,
    decreases s@.len() - i,
{
    if i == s.len() {
        assert(s@.skip(i as int) =~= Seq::<char>::empty());
        None
    } else {
        let c = s[i];
        assert(s@.skip(i as int)[0] == c);
        if c == '"' {
            assert(s@.skip(i as int).skip(1) =~= s@.skip(i as int + 1));
            let empty: Vec<char> = Vec::new();
            Some((empty, i + 1))
        } else if c == '\\' {
            if s.len() - i >= 2 {
                assert(s@.skip(i as int)[1] == s@[i as int + 1]);
                if s[i + 1] == 'u' {
                    match parse_unicode_escape(s, i) {
                        Some(et) => {
                            let (d, j0) = et;
                            assert(s@.skip(i as int).skip(j0 - i) =~= s@.skip(j0 as int));
                            match parse_chars(s, j0) {
                                Some(t) => {
                                    let (mut v, j) = t;
                                    let ghost v0 = v@;
                                    v.insert(0, d);
                                    assert(v@ =~= seq![d] + v0);
                                    Some((v, j))
                                },
                                None => None,
                            }
                        },
                        None => None,
                    }
                } else {
                    match unescape(s[i + 1]) {
                        Some(d) => {
                            assert(s@.skip(i as int).skip(2) =~= s@.skip(i as int + 2));
                            match parse_chars(s, i + 2) {
                                Some(t) => {
                                    let (mut v, j) = t;
                                    let ghost v0 = v@;
                                    v.insert(0, d);
                                    assert(v@ =~= seq![d] + v0);
                                    Some((v, j))
                                },
                                None => None,
                            }
                        },
                        None => None,
                    }
                }
            } else {
                assert(s@.skip(i as int).len() == 1);
                None
            }
        } else if (c as u32) < 32 {
            None
        } else {
            assert(s@.skip(i as int).skip(1) =~= s@.skip(i as int + 1));
            match parse_chars(s, i + 1) {
                Some(t) => {
                    let (mut v, j) = t;
                    let ghost v0 = v@;
                    v.insert(0, c);
                    assert(v@ =~= seq![c] + v0);
                    Some((v, j))
                },
                None => None,
            }
        }
    }
}

fn parse_string(s: &Vec<char>, i: usize) -> (r: Option<(Vec<char>, usize)>)
    requires
        i <= s@.len(),
    ensures
        r matches Some(t) ==> i < t.1 <= s@.len() && sp_string(s@.skip(i as int)) == Some(
            (t.0@, s@.skip(t.1 as int)),
        ),
        r is None ==> sp_string(s@.skip(i as int)) is None,
{
    if i < s.len() && s[i] == '"' {
        assert(s@.skip(i as int)[0] == s@[i as int]);
        assert(s@.skip(i as int).skip(1) =~= s@.skip(i as int + 1));
        parse_chars(s, i + 1)
    } else {
        proof {
            if i < s@.len() {
                assert(s@.skip(i as int)[0] == s@[i as int]);
            }
        }
        None
    }
}

fn parse_literal(s: &Vec<char>, i: usize) -> (r: Option<usize>)
    requires
        i <= s@.len(),
    ensures
        r matches Some(j) ==> i < j <= s@.len() && sp_literal(s@.skip(i as int)) == Some(
            s@.skip(j as int),
        ),
        r is None ==> sp_literal(s@.skip(i as int)) is None,
{
    proof {
        assert forall|k: int| 0 <= k < s@.skip(i as int).len() implies s@.skip(i as int)[k] == s@[i
            + k] by {};
    }
    if s.len() - i >= 4 && s[i] == 't' && s[i + 1] == 'r' && s[i + 2] == 'u' && s[i + 3] == 'e' {
        assert(s@.skip(i as int).skip(4) =~= s@.skip(i as int + 4));
        Some(i + 4)
    } else if s.len() - i >= 5 && s[i] == 'f' && s[i + 1] == 'a' && s[i + 2] == 'l' && s[i + 3]
        == 's' && s[i + 4] == 'e' {
        assert(s@.skip(i as int).skip(5) =~= s@.skip(i as int + 5));
        Some(i + 5)
    } else if s.len() - i >= 4 && s[i] == 'n' && s[i + 1] == 'u' && s[i + 2] == 'l' && s[i + 3]
        == 'l' {
        assert(s@.skip(i as int).skip(4) =~= s@.skip(i as int + 4));
        Some(i + 4)
    } else {
        None
    }
}

fn parse_number_exp(s: &Vec<char>, i: usize) -> (r: Option<usize>)
    requires
        i <= s@.len(),
    ensures
        r matches Some(j) ==> i <= j <= s@.len() && sp_number_exp(s@.skip(i as int)) == Some(
            s@.skip(j as int),
        ),
        r is None ==> sp_number_exp(s@.skip(i as int)) is None,
{
    proof {
        assert forall|k: int| 0 <= k < s@.skip(i as int).len() implies s@.skip(i as int)[k] == s@[i
            + k] by {};
    }
    if i < s.len() && (s[i] == 'e' || s[i] == 'E') {
        let i1: usize = if s.len() - i >= 2 && (s[i + 1] == '+' || s[i + 1] == '-') {
            assert(s@.skip(i as int).skip(2) =~= s@.skip(i as int + 2));
            i + 2
        } else {
            assert(s@.skip(i as int).skip(1) =~= s@.skip(i as int + 1));
            i + 1
        };
        if i1 < s.len() && is_digit_exec(s[i1]) {
            assert(s@.skip(i1 as int)[0] == s@[i1 as int]);
            assert(s@.skip(i1 as int).skip(1) =~= s@.skip(i1 as int + 1));
            let j = skip_digits(s, i1 + 1);
            Some(j)
        } else {
            proof {
                if i1 < s@.len() {
                    assert(s@.skip(i1 as int)[0] == s@[i1 as int]);
                }
            }
            None
        }
    } else {
        Some(i)
    }
}

fn parse_number_frac(s: &Vec<char>, i: usize) -> (r: Option<usize>)
    requires
        i <= s@.len(),
    ensures
        r matches Some(j) ==> i <= j <= s@.len() && sp_number_frac(s@.skip(i as int)) == Some(
            s@.skip(j as int),
        ),
        r is None ==> sp_number_frac(s@.skip(i as int)) is None,
{
    proof {
        assert forall|k: int| 0 <= k < s@.skip(i as int).len() implies s@.skip(i as int)[k] == s@[i
            + k] by {};
    }
    if i < s.len() && s[i] == '.' {
        if s.len() - i >= 2 && is_digit_exec(s[i + 1]) {
            assert(s@.skip(i as int).skip(2) =~= s@.skip(i as int + 2));
            let j = skip_digits(s, i + 2);
            parse_number_exp(s, j)
        } else {
            None
        }
    } else {
        parse_number_exp(s, i)
    }
}

fn parse_number(s: &Vec<char>, i: usize) -> (r: Option<usize>)
    requires
        i <= s@.len(),
    ensures
        r matches Some(j) ==> i < j <= s@.len() && sp_number(s@.skip(i as int)) == Some(
            s@.skip(j as int),
        ),
        r is None ==> sp_number(s@.skip(i as int)) is None,
{
    proof {
        assert forall|k: int| 0 <= k < s@.skip(i as int).len() implies s@.skip(i as int)[k] == s@[i
            + k] by {};
    }
    let i1: usize = if i < s.len() && s[i] == '-' {
        assert(s@.skip(i as int).skip(1) =~= s@.skip(i as int + 1));
        i + 1
    } else {
        i
    };
    proof {
        if i1 < s@.len() {
            assert(s@.skip(i1 as int)[0] == s@[i1 as int]);
        }
    }
    if i1 < s.len() && s[i1] == '0' {
        assert(s@.skip(i1 as int).skip(1) =~= s@.skip(i1 as int + 1));
        parse_number_frac(s, i1 + 1)
    } else if i1 < s.len() && is_digit_exec(s[i1]) {
        assert(s@.skip(i1 as int).skip(1) =~= s@.skip(i1 as int + 1));
        let j = skip_digits(s, i1 + 1);
        parse_number_frac(s, j)
    } else {
        None
    }
}

/// The content of a parsed value at the specification level.
pub open spec fn opt_chars_view(v: Option<Vec<char>>) -> Option<Seq<char>> {
    match v {
        Some(x) => Some(x@),
        None => None,
    }
}

/// The content of a parsed value held as a string.
pub open spec fn opt_string_view(v: Option<String>) -> Option<Seq<char>> {
    match v {
        Some(x) => Some(x@),
        None => None,
    }
}

/// The member list of a parsed object, at the specification level.
pub open spec fn pairs_view(ps: Seq<(String, Option<String>)>) -> Seq<
    (Seq<char>, Option<Seq<char>>),
> {
    Seq::new(ps.len(), |k: int| (ps[k].0@, opt_string_view(ps[k].1)))
}

fn parse_value(s: &Vec<char>, i: usize, fuel: usize) -> (r: Option<(Option<Vec<char>>, usize)>)
    requires
        i <= s@.len(),
    ensures
        r matches Some(t) ==> i < t.1 <= s@.len() && sp_value(s@.skip(i as int), fuel as nat)
            == Some((opt_chars_view(t.0), s@.skip(t.1 as int))),
        r is None ==> sp_value(s@.skip(i as int), fuel as nat) is None,
    decreases fuel, s@.len() - i, 0int,
{
    if fuel == 0 {
        None
    } else if i == s.len() {
        assert(s@.skip(i as int) =~= Seq::<char>::empty());
        None
    } else {
        let c = s[i];
        assert(s@.skip(i as int)[0] == c);
        if c == '"' {
            assert(s@.skip(i as int).skip(1) =~= s@.skip(i as int + 1));
            match parse_chars(s, i + 1) {
                Some(t) => Some((Some(t.0), t.1)),
                None => None,
            }
        } else if c == '{' {
            assert(s@.skip(i as int).skip(1) =~= s@.skip(i as int + 1));
            let j0 = skip_ws(s, i + 1);
            match parse_object_rest(s, j0, fuel - 1) {
                Some(j) => Some((None, j)),
                None => None,
            }
        } else if c == '[' {
            assert(s@.skip(i as int).skip(1) =~= s@.skip(i as int + 1));
            let j0 = skip_ws(s, i + 1);
            match parse_array_rest(s, j0, fuel - 1) {
                Some(j) => Some((None, j)),
                None => None,
            }
        } else if c == 't' || c == 'f' || c == 'n' {
            match parse_literal(s, i) {
                Some(j) => Some((None, j)),
                None => None,
            }
        } else {
            match parse_number(s, i) {
                Some(j) => Some((None, j)),
                None => None,
            }
        }
    }
}

fn parse_object_rest(s: &Vec<char>, i: usize, fuel: usize) -> (r: Option<usize>)
    requires
        i <= s@.len(),
    ensures
        r matches Some(j) ==> i < j <= s@.len() && sp_object_rest(s@.skip(i as int), fuel as nat)
            == Some(s@.skip(j as int)),
        r is None ==> sp_object_rest(s@.skip(i as int), fuel as nat) is None,
    decreases fuel, s@.len() - i, 3int,
{
    if fuel == 0 {
        None
    } else if i < s.len() && s[i] == '}' {
        assert(s@.skip(i as int)[0] == s@[i as int]);
        assert(s@.skip(i as int).skip(1) =~= s@.skip(i as int + 1));
        Some(i + 1)
    } else {
        proof {
            if i < s@.len() {
                assert(s@.skip(i as int)[0] == s@[i as int]);
            }
        }
        match parse_members(s, i, fuel) {
            Some(t) => {
                let j = t.1;
                if j < s.len() && s[j] == '}' {
                    assert(s@.skip(j as int)[0] == s@[j as int]);
                    assert(s@.skip(j as int).skip(1) =~= s@.skip(j as int + 1));
                    Some(j + 1)
                } else {
                    proof {
                        if j < s@.len() {
                            assert(s@.skip(j as int)[0] == s@[j as int]);
                        }
                    }
                    None
                }
            },
            None => None,
        }
    }
}

fn parse_pair(s: &Vec<char>, i: usize, fuel: usize) -> (r: Option<
    (Vec<char>, Option<Vec<char>>, usize),
>)
    requires
        i <= s@.len(),
    ensures
        r matches Some(t) ==> i < t.2 <= s@.len() && sp_pair(s@.skip(i as int), fuel as nat)
            == Some(((t.0@, opt_chars_view(t.1)), s@.skip(t.2 as int))),
        r is None ==> sp_pair(s@.skip(i as int), fuel as nat) is None,
    decreases fuel, s@.len() - i, 1int,
{
    if fuel == 0 {
        return None;
    }
    match parse_string(s, i) {
        Some(kt) => {
            let (k, j1) = kt;
            let j2 = skip_ws(s, j1);
            if j2 < s.len() && s[j2] == ':' {
                assert(s@.skip(j2 as int)[0] == s@[j2 as int]);
                assert(s@.skip(j2 as int).skip(1) =~= s@.skip(j2 as int + 1));
                let j3 = skip_ws(s, j2 + 1);
                match parse_value(s, j3, fuel) {
                    Some(vt) => {
                        let (v, j4) = vt;
                        Some((k, v, j4))
                    },
                    None => None,
                }
            } else {
                proof {
                    if j2 < s@.len() {
                        assert(s@.skip(j2 as int)[0] == s@[j2 as int]);
                    }
                }
                None
            }
        },
        None => None,
    }
}

fn parse_members(s: &Vec<char>, i: usize, fuel: usize) -> (r: Option<
    (Vec<(String, Option<String>)>, usize),
>)
    requires
        i <= s@.len(),
    ensures
        r matches Some(t) ==> i < t.1 <= s@.len() && sp_members(s@.skip(i as int), fuel as nat)
            == Some((pairs_view(t.0@), s@.skip(t.1 as int))),
        r is None ==> sp_members(s@.skip(i as int), fuel as nat) is None,
    decreases fuel, s@.len() - i, 2int,
{
    if fuel == 0 {
        return None;
    }
    match parse_pair(s, i, fuel) {
        Some(pt) => {
            let (k, vopt, j1) = pt;
            let ghost kv = (k@, opt_chars_view(vopt));
            let ks = chars_to_string(&k);
            let vs: Option<String> = match vopt {
                Some(vc) => Some(chars_to_string(&vc)),
                None => None,
            };
            assert((ks@, opt_string_view(vs)) == kv);
            let ghost item = (ks@, opt_string_view(vs));
            let j2 = skip_ws(s, j1);
            if j2 < s.len() && s[j2] == ',' {
                assert(s@.skip(j2 as int)[0] == s@[j2 as int]);
                assert(s@.skip(j2 as int).skip(1) =~= s@.skip(j2 as int + 1));
                let j3 = skip_ws(s, j2 + 1);
                match parse_members(s, j3, fuel - 1) {
                    Some(mt) => {
                        let (mut ps, j4) = mt;
                        let ghost ps0 = ps@;
                        ps.insert(0, (ks, vs));
                        assert(pairs_view(ps@) =~= seq![item] + pairs_view(ps0));
                        Some((ps, j4))
                    },
                    None => None,
                }
            } else {
                proof {
                    if j2 < s@.len() {
                        assert(s@.skip(j2 as int)[0] == s@[j2 as int]);
                    }
                }
                let mut ps: Vec<(String, Option<String>)> = Vec::new();
                ps.push((ks, vs));
                assert(pairs_view(ps@) =~= seq![item]);
                Some((ps, j2))
            }
        },
        None => None,
    }
}

fn parse_elements(s: &Vec<char>, i: usize, fuel: usize) -> (r: Option<usize>)
    requires
        i <= s@.len(),
    ensures
        r matches Some(j) ==> i < j <= s@.len() && sp_elements(s@.skip(i as int), fuel as nat)
            == Some(s@.skip(j as int)),
        r is None ==> sp_elements(s@.skip(i as int), fuel as nat) is None,
    decreases fuel, s@.len() - i, 2int,
{
    if fuel == 0 {
        return None;
    }
    match parse_value(s, i, fuel) {
        Some(vt) => {
            let j1 = vt.1;
            let j2 = skip_ws(s, j1);
            if j2 < s.len() && s[j2] == ',' {
                assert(s@.skip(j2 as int)[0] == s@[j2 as int]);
                assert(s@.skip(j2 as int).skip(1) =~= s@.skip(j2 as int + 1));
                let j3 = skip_ws(s, j2 + 1);
                parse_elements(s, j3, fuel - 1)
            } else {
                proof {
                    if j2 < s@.len() {
                        assert(s@.skip(j2 as int)[0] == s@[j2 as int]);
                    }
                }
                Some(j2)
            }
        },
        None => None,
    }
}

fn parse_array_rest(s: &Vec<char>, i: usize, fuel: usize) -> (r: Option<usize>)
    requires
        i <= s@.len(),
    ensures
        r matches Some(j) ==> i < j <= s@.len() && sp_array_rest(s@.skip(i as int), fuel as nat)
            == Some(s@.skip(j as int)),
        r is None ==> sp_array_rest(s@.skip(i as int), fuel as nat) is None,
    decreases fuel, s@.len() - i, 3int,
{
    if fuel == 0 {
        None
    } else if i < s.len() && s[i] == ']' {
        assert(s@.skip(i as int)[0] == s@[i as int]);
        assert(s@.skip(i as int).skip(1) =~= s@.skip(i as int + 1));
        Some(i + 1)
    } else {
        proof {
            if i < s@.len() {
                assert(s@.skip(i as int)[0] == s@[i as int]);
            }
        }
        match parse_elements(s, i, fuel) {
            Some(j) => {
                if j < s.len() && s[j] == ']' {
                    assert(s@.skip(j as int)[0] == s@[j as int]);
                    assert(s@.skip(j as int).skip(1) =~= s@.skip(j as int + 1));
                    Some(j + 1)
                } else {
                    proof {
                        if j < s@.len() {
                            assert(s@.skip(j as int)[0] == s@[j as int]);
                        }
                    }
                    None
                }
            },
            None => None,
        }
    }
}

/// Parses a whole text as one object of members.
pub fn parse_object_str(s: &str) -> (r: Option<Vec<(String, Option<String>)>>)
    ensures
        r matches Some(ps) ==> sp_object(s@) == Some(pairs_view(ps@)),
        r is None ==> sp_object(s@) is None,
{
    let chars = str_to_chars(s);
    assert(chars@.skip(0) =~= s@);
    let i0 = skip_ws(&chars, 0);
    if i0 < chars.len() && chars[i0] == '{' {
        assert(chars@.skip(i0 as int)[0] == chars@[i0 as int]);
        assert(chars@.skip(i0 as int).skip(1) =~= chars@.skip(i0 as int + 1));
        let i1 = skip_ws(&chars, i0 + 1);
        if i1 < chars.len() && chars[i1] == '}' {
            assert(chars@.skip(i1 as int)[0] == chars@[i1 as int]);
            assert(chars@.skip(i1 as int).skip(1) =~= chars@.skip(i1 as int + 1));
            let i2 = skip_ws(&chars, i1 + 1);
            if i2 == chars.len() {
                assert(chars@.skip(i2 as int) =~= Seq::<char>::empty());
                let ps: Vec<(String, Option<String>)> = Vec::new();
                assert(pairs_view(ps@) =~= Seq::<(Seq<char>, Option<Seq<char>>)>::empty());
                Some(ps)
            } else {
                None
            }
        } else {
            proof {
                if i1 < chars@.len() {
                    assert(chars@.skip(i1 as int)[0] == chars@[i1 as int]);
                }
            }
            match parse_members(&chars, i1, chars.len()) {
                Some(mt) => {
                    let (ps, j) = mt;
                    if j < chars.len() && chars[j] == '}' {
                        assert(chars@.skip(j as int)[0] == chars@[j as int]);
                        assert(chars@.skip(j as int).skip(1) =~= chars@.skip(j as int + 1));
                        let j2 = skip_ws(&chars, j + 1);
                        if j2 == chars.len() {
                            assert(chars@.skip(j2 as int) =~= Seq::<char>::empty());
                            Some(ps)
                        } else {
                            None
                        }
                    } else {
                        proof {
                            if j < chars@.len() {
                                assert(chars@.skip(j as int)[0] == chars@[j as int]);
                            }
                        }
                        None
                    }
                },
                None => None,
            }
        }
    } else {
        proof {
            if i0 < chars@.len() {
                assert(chars@.skip(i0 as int)[0] == chars@[i0 as int]);
            }
        }
        None
    }
}

/// How many members of a parsed object carry the name `key`.
pub fn key_count(ps: &Vec<(String, Option<String>)>, key: &str) -> (n: usize)
    ensures
        n as nat == sp_key_count(pairs_view(ps@), key@),
{
    let key_string = String::from_str(key);
    let mut n: usize = 0;
    let mut k: usize = 0;
    assert(pairs_view(ps@).skip(0) =~= pairs_view(ps@));
    while k < ps.len()
        invariant
            k <= ps@.len(),
            n <= k,
            key_string@ == key@,
            sp_key_count(pairs_view(ps@), key@) == n as nat + sp_key_count(
                pairs_view(ps@).skip(k as int),
                key@,
            ),
        decreases ps@.len() - k,
    {
        assert(pairs_view(ps@).skip(k as int)[0] == pairs_view(ps@)[k as int]);
        assert(pairs_view(ps@).skip(k as int).skip(1) =~= pairs_view(ps@).skip(k as int + 1));
        if ps[k].0 == key_string {
            n = n + 1;
        }
        k = k + 1;
    }
    assert(pairs_view(ps@).skip(k as int) =~= Seq::<(Seq<char>, Option<Seq<char>>)>::empty());
    n
}

/// Finds the first member named `key` in a parsed object.
pub fn lookup_field(ps: &Vec<(String, Option<String>)>, key: &str) -> (r: Option<Option<String>>)
    ensures
        r matches Some(v) ==> sp_lookup(pairs_view(ps@), key@) == Some(opt_string_view(v)),
        r is None ==> sp_lookup(pairs_view(ps@), key@) is None,
{
    let key_string = String::from_str(key);
    let mut k: usize = 0;
    assert(pairs_view(ps@).skip(0) =~= pairs_view(ps@));
    while k < ps.len()
        invariant
            k <= ps@.len(),
            key_string@ == key@,
            sp_lookup(pairs_view(ps@), key@) == sp_lookup(
                pairs_view(ps@).skip(k as int),
                key@,
            ),
        decreases ps@.len() - k,
    {
        assert(pairs_view(ps@).skip(k as int)[0] == pairs_view(ps@)[k as int]);
        if ps[k].0 == key_string {
            let found: Option<String> = match &ps[k].1 {
                Some(v) => Some(v.clone()),
                None => None,
            };
            assert(opt_string_view(found) == opt_string_view(ps@[k as int].1));
            return Some(found);
        }
        assert(pairs_view(ps@).skip(k as int).skip(1) =~= pairs_view(ps@).skip(k as int + 1));
        k = k + 1;
    }
    assert(pairs_view(ps@).skip(k as int) =~= Seq::<(Seq<char>, Option<Seq<char>>)>::empty());
    None
}

/// Parses `s` as an object and returns its string field `key`: present
/// exactly once, with a string value.
pub fn decode_field(s: &str, key: &str) -> (r: Option<String>)
    ensures
        r matches Some(v) ==> sp_decode_field(s@, key@) == Some(v@),
        r is None ==> sp_decode_field(s@, key@) is None,
{
    match parse_object_str(s) {
        Some(ps) => {
            if key_count(&ps, key) == 1 {
                match lookup_field(&ps, key) {
                    Some(v) => match v {
                        Some(text) => Some(text),
                        None => None,
                    },
                    None => None,
                }
            } else {
                None
            }
        },
        None => None,
    }
}

// ---------------------------------------------------------------------------
// Executable encoder.
// ---------------------------------------------------------------------------

fn hex_char_exec(n: u32) -> (r: char)
    requires
        n < 16,
    ensures
        r == hex_char(n as int),
{
    if n == 0 {
        '0'
    } else if n == 1 {
        '1'
    } else if n == 2 {
        '2'
    } else if n == 3 {
        '3'
    } else if n == 4 {
        '4'
    } else if n == 5 {
        '5'
    } else if n == 6 {
        '6'
    } else if n == 7 {
        '7'
    } else if n == 8 {
        '8'
    } else if n == 9 {
        '9'
    } else if n == 10 {
        'a'
    } else if n == 11 {
        'b'
    } else if n == 12 {
        'c'
    } else if n == 13 {
        'd'
    } else if n == 14 {
        'e'
    } else {
        'f'
    }
}

proof fn lemma_sp_escape_snoc(p: Seq<char>, c: char)
    ensures
        sp_escape(p.push(c)) == sp_escape(p) + escape_char(c),
    decreases p.len(),
{
    if p.len() == 0 {
        assert(p.push(c)[0] == c);
        assert(p.push(c).skip(1) =~= Seq::<char>::empty());
        assert(sp_escape(Seq::<char>::empty()) =~= Seq::<char>::empty());
        assert(sp_escape(p.push(c)) == escape_char(c) + sp_escape(Seq::<char>::empty()));
        assert(sp_escape(p.push(c)) =~= escape_char(c));
        assert(sp_escape(p) + escape_char(c) =~= escape_char(c));
    } else {
        lemma_sp_escape_snoc(p.skip(1), c);
        assert(p.push(c).skip(1) =~= p.skip(1).push(c));
        assert(p.push(c)[0] == p[0]);
        assert(escape_char(p[0]) + (sp_escape(p.skip(1)) + escape_char(c)) =~= (escape_char(p[0])
            + sp_escape(p.skip(1))) + escape_char(c));
    }
}

fn push_escaped(out: &mut String, s: &str)
    ensures
        final(out)@ == old(out)@ + sp_escape(s@),
{
    let n = s.unicode_len();
    let mut k: usize = 0;
    while k < n
        invariant
            n == s@.len(),
            k <= n,
            out@ == old(out)@ + sp_escape(s@.take(k as int)),
        decreases n - k,
    {
        let c = s.get_char(k);
        proof {
            lemma_sp_escape_snoc(s@.take(k as int), c);
            assert(s@.take(k as int).push(c) =~= s@.take(k as int + 1));
        }
        if c == '"' {
            let lit = "\\\"";
            proof {
                reveal_strlit("\\\"");
            }
            assert(lit@ =~= escape_char(c));
            out.append(lit);
        } else if c == '\\' {
            let lit = "\\\\";
            proof {
                reveal_strlit("\\\\");
            }
            assert(lit@ =~= escape_char(c));
            out.append(lit);
        } else if c == '\n' {
            let lit = "\\n";
            proof {
                reveal_strlit("\\n");
            }
            assert(lit@ =~= escape_char(c));
            out.append(lit);
        } else if c == '\t' {
            let lit = "\\t";
            proof {
                reveal_strlit("\\t");
            }
            assert(lit@ =~= escape_char(c));
            out.append(lit);
        } else if c == '\r' {
            let lit = "\\r";
            proof {
                reveal_strlit("\\r");
            }
            assert(lit@ =~= escape_char(c));
            out.append(lit);
        } else if c == '\u{8}' {
            let lit = "\\b";
            proof {
                reveal_strlit("\\b");
            }
            assert(lit@ =~= escape_char(c));
            out.append(lit);
        } else if c == '\u{c}' {
            let lit = "\\f";
            proof {
                reveal_strlit("\\f");
            }
            assert(lit@ =~= escape_char(c));
            out.append(lit);
        } else {
            let u = c as u32;
            if u < 32 {
                let ghost out0 = out@;
                push_char(out, '\\');
                push_char(out, 'u');
                push_char(out, '0');
                push_char(out, '0');
                push_char(out, hex_char_exec(u / 16));
                push_char(out, hex_char_exec(u % 16));
                assert(escape_char(c) =~= seq![
                    '\\',
                    'u',
                    '0',
                    '0',
                    hex_char((u / 16) as int),
                    hex_char((u % 16) as int),
                ]);
                assert(out@ =~= out0 + escape_char(c));
            } else {
                assert(seq![c] =~= escape_char(c));
                push_char(out, c);
            }
        }
        k = k + 1;
    }
    assert(s@.take(n as int) =~= s@);
}

fn push_encoded_string(out: &mut String, s: &str)
    ensures
        final(out)@ == old(out)@ + sp_encode_string(s@),
{
    push_char(out, '"');
    push_escaped(out, s);
    push_char(out, '"');
    assert(out@ =~= old(out)@ + sp_encode_string(s@));
}

/// The canonical text of an object with the one field `key`, valued `val`.
pub fn encode_one_field(key: &str, val: &str) -> (r: String)
    ensures
        r@ == sp_encode_object(seq![(key@, val@)]),
{
    let mut out = String::new();
    push_char(&mut out, '{');
    push_encoded_string(&mut out, key);
    push_char(&mut out, ':');
    push_encoded_string(&mut out, val);
    push_char(&mut out, '}');
    proof {
        let ps = seq![(key@, val@)];
        assert(sp_encode_members(ps) == sp_encode_pair(key@, val@));
        assert(out@ =~= sp_encode_object(ps));
    }
    out
}

/// The canonical text of an object with the two fields given, in order.
pub fn encode_two_fields(k1: &str, v1: &str, k2: &str, v2: &str) -> (r: String)
    ensures
        r@ == sp_encode_object(seq![(k1@, v1@), (k2@, v2@)]),
{
    let mut out = String::new();
    push_char(&mut out, '{');
    push_encoded_string(&mut out, k1);
    push_char(&mut out, ':');
    push_encoded_string(&mut out, v1);
    push_char(&mut out, ',');
    push_encoded_string(&mut out, k2);
    push_char(&mut out, ':');
    push_encoded_string(&mut out, v2);
    push_char(&mut out, '}');
    proof {
        let ps = seq![(k1@, v1@), (k2@, v2@)];
        assert(ps.skip(1) =~= seq![(k2@, v2@)]);
        assert(sp_encode_members(seq![(k2@, v2@)]) == sp_encode_pair(k2@, v2@));
        assert(sp_encode_members(ps) == sp_encode_pair(k1@, v1@) + seq![','] + sp_encode_pair(
            k2@,
            v2@,
        ));
        assert(out@ =~= sp_encode_object(ps));
    }
    out
}

} // verus!
