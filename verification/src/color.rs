//! The RGB(A) color model: parsing from hex text and formatting back.

use vstd::prelude::*;

verus! {

/// An RGB color with an optional alpha channel. `a == None` means no alpha
/// channel was declared, which is distinct from an explicit `a == Some(255)`:
/// the two format differently (six digits versus eight).
#[derive(Debug, Clone, Copy, PartialEq, Eq, Structural)]
pub struct Color {
    pub r: u8,
    pub g: u8,
    pub b: u8,
    pub a: Option<u8>,
}

/// Error returned when a string is not a valid hex color.
#[derive(Debug, Clone, Copy, PartialEq, Eq, Structural)]
pub struct ParseError;

pub open spec fn is_hex_digit(c: char) -> bool {
    ('0' <= c && c <= '9') || ('a' <= c && c <= 'f') || ('A' <= c && c <= 'F')
}

/// The numeric value of a hex digit (0 for characters that are none).
pub open spec fn hex_val(c: char) -> u8 {
    if '0' <= c && c <= '9' {
        ((c as u32) - 48) as u8
    } else if 'a' <= c && c <= 'f' {
        ((c as u32) - 87) as u8
    } else if 'A' <= c && c <= 'F' {
        ((c as u32) - 55) as u8
    } else {
        0
    }
}

/// A single leading `#` is accepted and ignored.
pub open spec fn strip_prefix_hash(s: Seq<char>) -> Seq<char> {
    if s.len() > 0 && s[0] == '#' {
        s.subrange(1, s.len() as int)
    } else {
        s
    }
}

pub open spec fn all_hex_digits(s: Seq<char>) -> bool {
    forall|i: int| 0 <= i < s.len() ==> is_hex_digit(#[trigger] s[i])
}

/// A valid hex color is an optional `#` followed by exactly 6 or 8 hex digits.
pub open spec fn is_valid_hex_color(s: Seq<char>) -> bool {
    let t = strip_prefix_hash(s);
    (t.len() == 6 || t.len() == 8) && all_hex_digits(t)
}

/// The byte encoded big-endian by the digit pair at positions `i`, `i + 1`.
pub open spec fn hex_byte_at(t: Seq<char>, i: int) -> u8 {
    (hex_val(t[i]) * 16 + hex_val(t[i + 1])) as u8
}

/// What parsing a hex color string yields: `None` exactly on invalid input.
pub open spec fn spec_parse_hex(s: Seq<char>) -> Option<Color> {
    let t = strip_prefix_hash(s);
    if is_valid_hex_color(s) {
        Some(
            Color {
                r: hex_byte_at(t, 0),
                g: hex_byte_at(t, 2),
                b: hex_byte_at(t, 4),
                a: if t.len() == 8 {
                    Some(hex_byte_at(t, 6))
                } else {
                    None
                },
            },
        )
    } else {
        None
    }
}

/// The lowercase hex digit character for a value below 16.
pub open spec fn hex_char_of(v: u8) -> char {
    if v < 10 {
        ((48 + v) as u8) as char
    } else {
        ((87 + v) as u8) as char
    }
}

/// Hex-digit lowercasing: maps `A`-`F` to `a`-`f` and leaves the rest alone.
pub open spec fn lower_hex_char(c: char) -> char {
    if 'A' <= c && c <= 'F' {
        (((c as u32) + 32) as u8) as char
    } else {
        c
    }
}

pub open spec fn lower_hex(s: Seq<char>) -> Seq<char> {
    s.map_values(|c: char| lower_hex_char(c))
}

/// What formatting a color yields: two lowercase hex digits per channel,
/// six digits without alpha and eight with it.
pub open spec fn spec_format_hex(c: Color) -> Seq<char> {
    let rgb = seq![
        hex_char_of(c.r / 16),
        hex_char_of(c.r % 16),
        hex_char_of(c.g / 16),
        hex_char_of(c.g % 16),
        hex_char_of(c.b / 16),
        hex_char_of(c.b % 16),
    ];
    match c.a {
        Some(al) => rgb + seq![hex_char_of(al / 16), hex_char_of(al % 16)],
        None => rgb,
    }
}

/// The numeric value of one hex digit, or `None` if `c` is not a hex digit.
fn hex_digit_val(c: char) -> (res: Option<u8>)
    ensures
        res is Some <==> is_hex_digit(c),
        res is Some ==> res->0 == hex_val(c) && res->0 < 16,
{
    let n = c as u32;
    if 48 <= n && n <= 57 {
        Some((n - 48) as u8)
    } else if 97 <= n && n <= 102 {
        Some((n - 87) as u8)
    } else if 65 <= n && n <= 70 {
        Some((n - 55) as u8)
    } else {
        None
    }
}

/// The byte at digit pair `i`, `i + 1` of a run of hex digits.
fn hex_pair(t: &str, i: usize) -> (res: u8)
    requires
        t@.len() <= usize::MAX,
        i + 1 < t@.len(),
        is_hex_digit(t@[i as int]),
        is_hex_digit(t@[i as int + 1]),
    ensures
        res == hex_byte_at(t@, i as int),
{
    let hi = hex_digit_val(t.get_char(i));
    let lo = hex_digit_val(t.get_char(i + 1));
    hi.unwrap() * 16 + lo.unwrap()
}

impl Color {
    /// Parses an optionally `#`-prefixed string of exactly 6 or 8 hex digits;
    /// any other length or a non-hex character is a `ParseError`.
    pub fn from_hex(s: &str) -> (res: Result<Color, ParseError>)
        ensures
            res is Ok <==> is_valid_hex_color(s@),
            match res {
                Ok(c) => spec_parse_hex(s@) == Some(c),
                Err(_) => spec_parse_hex(s@) is None,
            },
    {
        let len = s.unicode_len();
        let t: &str = if len >= 1 && s.get_char(0) == '#' {
            s.substring_char(1, len)
        } else {
            s
        };
        assert(t@ == strip_prefix_hash(s@));
        let n = t.unicode_len();
        if n != 6 && n != 8 {
            return Err(ParseError);
        }
        let mut i: usize = 0;
        while i < n
            invariant
                n == t@.len(),
                n == 6 || n == 8,
                t@ == strip_prefix_hash(s@),
                i <= n,
                forall|k: int| 0 <= k < i ==> is_hex_digit(#[trigger] t@[k]),
            decreases n - i,
        {
            if hex_digit_val(t.get_char(i)).is_none() {
                assert(!all_hex_digits(t@));
                return Err(ParseError);
            }
            i += 1;
        }
        let a = if n == 8 {
            Some(hex_pair(t, 6))
        } else {
            None
        };
        Ok(Color { r: hex_pair(t, 0), g: hex_pair(t, 2), b: hex_pair(t, 4), a })
    }

    /// Formats the color back to lowercase hex digits, zero-padded to two
    /// digits per channel, with the alpha pair only when alpha is present.
    pub fn to_hex(&self) -> (res: String)
        ensures
            res@ == spec_format_hex(*self),
    {
        let mut out = String::new();
        push_char(&mut out, hex_char(self.r / 16));
        push_char(&mut out, hex_char(self.r % 16));
        push_char(&mut out, hex_char(self.g / 16));
        push_char(&mut out, hex_char(self.g % 16));
        push_char(&mut out, hex_char(self.b / 16));
        push_char(&mut out, hex_char(self.b % 16));
        if let Some(al) = self.a {
            push_char(&mut out, hex_char(al / 16));
            push_char(&mut out, hex_char(al % 16));
        }
        assert(out@ =~= spec_format_hex(*self));
        out
    }
}

/// The lowercase hex digit character for a value below 16.
pub(crate) fn hex_char(v: u8) -> (c: char)
    requires
        v < 16,
    ensures
        c == hex_char_of(v),
{
    if v < 10 {
        (48 + v) as char
    } else {
        (87 + v) as char
    }
}

/// Relies on `String::push`, which appends the given character to the end of
/// the string.
#[verifier::external_body]
pub(crate) fn push_char(s: &mut String, c: char)
    ensures
        final(s)@ == old(s)@.push(c),
{
    s.push(c);
}

/// For every hex digit, parsing it to a value and formatting that value back
/// yields the digit lowercased.
pub proof fn lemma_hex_digit_roundtrip(c: char)
    requires
        is_hex_digit(c),
    ensures
        hex_char_of(hex_val(c)) == lower_hex_char(c),
{
}

/// A byte assembled from two hex digit values splits back into them.
proof fn lemma_byte_split(v1: u8, v2: u8)
    requires
        v1 < 16,
        v2 < 16,
    ensures
        ((v1 * 16 + v2) as u8) / 16 == v1,
        ((v1 * 16 + v2) as u8) % 16 == v2,
{
    assert(((v1 * 16 + v2) as u8) / 16 == v1 && ((v1 * 16 + v2) as u8) % 16 == v2)
        by (nonlinear_arith)
        requires
            v1 < 16,
            v2 < 16,
    ;
}

/// Round trip for six-digit colors: for every valid 6-digit hex string, with
/// or without a leading `#`, formatting the parsed color yields the digits
/// lowercased, and the parsed color has no alpha channel.
pub proof fn lemma_format_parse_roundtrip_6(s: Seq<char>)
    requires
        strip_prefix_hash(s).len() == 6,
        all_hex_digits(strip_prefix_hash(s)),
    ensures
        spec_parse_hex(s) is Some,
        spec_parse_hex(s)->0.a is None,
        spec_format_hex(spec_parse_hex(s)->0) == lower_hex(strip_prefix_hash(s)),
{
    let t = strip_prefix_hash(s);
    let c = spec_parse_hex(s)->0;
    assert forall|k: int| 0 <= k < 6 implies #[trigger] spec_format_hex(c)[k] == lower_hex_char(
        t[k],
    ) by {
        let p = 2 * (k / 2);
        lemma_byte_split(hex_val(t[p]), hex_val(t[p + 1]));
        lemma_hex_digit_roundtrip(t[k]);
    }
    assert(spec_format_hex(c) =~= lower_hex(t));
}

/// Round trip for eight-digit colors: formatting the parsed color yields the
/// digits lowercased, and the parsed color carries an explicit alpha value.
pub proof fn lemma_format_parse_roundtrip_8(s: Seq<char>)
    requires
        strip_prefix_hash(s).len() == 8,
        all_hex_digits(strip_prefix_hash(s)),
    ensures
        spec_parse_hex(s) is Some,
        spec_parse_hex(s)->0.a is Some,
        spec_format_hex(spec_parse_hex(s)->0) == lower_hex(strip_prefix_hash(s)),
{
    let t = strip_prefix_hash(s);
    let c = spec_parse_hex(s)->0;
    assert forall|k: int| 0 <= k < 8 implies #[trigger] spec_format_hex(c)[k] == lower_hex_char(
        t[k],
    ) by {
        let p = 2 * (k / 2);
        lemma_byte_split(hex_val(t[p]), hex_val(t[p + 1]));
        lemma_hex_digit_roundtrip(t[k]);
    }
    assert(spec_format_hex(c) =~= lower_hex(t));
}

} // verus!
