//! ANSI truecolor escape sequences: wrapping a message so a truecolor
//! terminal shows it with a given foreground or background color.

use vstd::prelude::*;
use crate::color::{hex_char, hex_char_of, push_char, Color};

verus! {

/// The decimal digits of a byte, without leading zeros.
pub open spec fn dec_digits(n: u8) -> Seq<char> {
    if n < 10 {
        seq![hex_char_of(n)]
    } else if n < 100 {
        seq![hex_char_of(n / 10), hex_char_of(n % 10)]
    } else {
        seq![hex_char_of(n / 100), hex_char_of((n / 10) % 10), hex_char_of(n % 10)]
    }
}

/// The escape that starts a truecolor foreground selection.
pub open spec fn ansi_fg_prefix() -> Seq<char> {
    seq!['\u{1b}', '[', '3', '8', ';', '2', ';']
}

/// The escape that starts a truecolor background selection.
pub open spec fn ansi_bg_prefix() -> Seq<char> {
    seq!['\u{1b}', '[', '4', '8', ';', '2', ';']
}

/// The escape that resets all terminal attributes.
pub open spec fn ansi_reset() -> Seq<char> {
    seq!['\u{1b}', '[', '0', 'm']
}

/// A message wrapped in a truecolor selection with the given opening escape:
/// the three channel values in decimal, separated by `;`, then `m`, the
/// message, and the reset escape.
pub open spec fn ansi_wrapped(prefix: Seq<char>, c: Color, msg: Seq<char>) -> Seq<char> {
    prefix + dec_digits(c.r) + seq![';'] + dec_digits(c.g) + seq![';'] + dec_digits(c.b) + seq![
        'm',
    ] + msg + ansi_reset()
}

/// The decimal rendering of a byte.
fn dec_u8(n: u8) -> (res: String)
    ensures
        res@ == dec_digits(n),
{
    let mut out = String::new();
    if n >= 100 {
        push_char(&mut out, hex_char(n / 100));
        push_char(&mut out, hex_char((n / 10) % 10));
        push_char(&mut out, hex_char(n % 10));
    } else if n >= 10 {
        push_char(&mut out, hex_char(n / 10));
        push_char(&mut out, hex_char(n % 10));
    } else {
        push_char(&mut out, hex_char(n));
    }
    assert(out@ =~= dec_digits(n));
    out
}

/// The channel part shared by both wrappings: `R;G;B` followed by `m`,
/// the message, and the reset escape.
fn ansi_tail(c: &Color, msg: &str) -> (res: String)
    ensures
        res@ == dec_digits(c.r) + seq![';'] + dec_digits(c.g) + seq![';'] + dec_digits(c.b) + seq![
            'm',
        ] + msg@ + ansi_reset(),
{
    let mut out = dec_u8(c.r);
    out.append(";");
    let g = dec_u8(c.g);
    out.append(g.as_str());
    out.append(";");
    let b = dec_u8(c.b);
    out.append(b.as_str());
    out.append("m");
    out.append(msg);
    out.append("\u{1b}[0m");
    proof {
        reveal_strlit(";");
        reveal_strlit("m");
        reveal_strlit("\u{1b}[0m");
        assert(out@ =~= dec_digits(c.r) + seq![';'] + dec_digits(c.g) + seq![';'] + dec_digits(
            c.b,
        ) + seq!['m'] + msg@ + ansi_reset());
    }
    out
}

impl Color {
    /// Wraps the message in the escapes that select this color as the
    /// foreground on a truecolor terminal.
    pub fn fg(&self, msg: &str) -> (res: String)
        ensures
            res@ == ansi_wrapped(ansi_fg_prefix(), *self, msg@),
    {
        let mut out = "\u{1b}[38;2;".to_owned();
        let tail = ansi_tail(self, msg);
        out.append(tail.as_str());
        proof {
            reveal_strlit("\u{1b}[38;2;");
            assert(out@ =~= ansi_wrapped(ansi_fg_prefix(), *self, msg@));
        }
        out
    }

    /// Wraps the message in the escapes that select this color as the
    /// background on a truecolor terminal.
    pub fn bg(&self, msg: &str) -> (res: String)
        ensures
            res@ == ansi_wrapped(ansi_bg_prefix(), *self, msg@),
    {
        let mut out = "\u{1b}[48;2;".to_owned();
        let tail = ansi_tail(self, msg);
        out.append(tail.as_str());
        proof {
            reveal_strlit("\u{1b}[48;2;");
            assert(out@ =~= ansi_wrapped(ansi_bg_prefix(), *self, msg@));
        }
        out
    }
}

} // verus!
