//! Linear color gradients: the value types and the escape-code assembly
//! that wraps each character of a text in its own 24-bit color code.
//!
//! Computing the interpolated color stops themselves is numeric
//! interpolation and is left to the caller; the functions here take one
//! precomputed color per character.

use crate::ansi::{dec_digits, u8_string};
use crate::style::Color;
use vstd::prelude::*;

verus! {

/// A 24-bit RGB color.
#[derive(Clone, Copy, PartialEq, Eq, Structural, Debug)]
pub struct Rgb {
    /// Red component.
    pub r: u8,
    /// Green component.
    pub g: u8,
    /// Blue component.
    pub b: u8,
}

/// Linear color gradient between two color stops.
#[derive(Clone, Copy, PartialEq, Eq, Structural, Debug)]
pub struct Gradient {
    /// Start color of the gradient.
    pub start: Rgb,
    /// End color of the gradient.
    pub end: Rgb,
}

/// Whether a color applies to the text itself or to what it sits on.
#[derive(Clone, Copy, PartialEq, Eq, Structural, Debug)]
pub enum TargetGround {
    /// The color of the content itself.
    Foreground,
    /// The color of the background the content sits on.
    Background,
}

impl TargetGround {
    /// The base ANSI code of the target ground.
    pub fn code(&self) -> (r: u8)
        ensures
            r == match *self {
                TargetGround::Foreground => 30u8,
                TargetGround::Background => 40u8,
            },
    {
        match self {
            TargetGround::Foreground => 30,
            TargetGround::Background => 40,
        }
    }
}

/// The 24-bit color parameter list for `c` on the given ground:
/// `38;2;r;g;b` for the foreground, `48;2;r;g;b` for the background.
pub open spec fn spec_rgb_code(c: Rgb, target: TargetGround) -> Seq<char> {
    (match target {
        TargetGround::Foreground => "38"@,
        TargetGround::Background => "48"@,
    }) + ";2;"@ + dec_digits(c.r as int) + ";"@ + dec_digits(c.g as int) + ";"@ + dec_digits(
        c.b as int,
    )
}

/// Implementors can be mapped to an ANSI color code parameter list.
pub trait ANSIColorCode {
    /// The parameter list this value maps to.
    spec fn spec_color_code(&self, target: TargetGround) -> Seq<char>;

    /// Compute the parameter list this value maps to.
    fn ansi_color_code(&self, target: TargetGround) -> (r: String)
        ensures
            r@ == self.spec_color_code(target),
    ;
}

impl ANSIColorCode for Rgb {
    open spec fn spec_color_code(&self, target: TargetGround) -> Seq<char> {
        spec_rgb_code(*self, target)
    }

    fn ansi_color_code(&self, target: TargetGround) -> (r: String)
        ensures
            r@ == self.spec_color_code(target),
    {
        let mut out = match target {
            TargetGround::Foreground => String::from_str("38"),
            TargetGround::Background => String::from_str("48"),
        };
        out.append(";2;");
        let rs = u8_string(self.r);
        out.append(rs.as_str());
        out.append(";");
        let gs = u8_string(self.g);
        out.append(gs.as_str());
        out.append(";");
        let bs = u8_string(self.b);
        out.append(bs.as_str());
        out
    }
}

impl Gradient {
    /// A gradient from `start` to `end`.
    pub fn new(start: Rgb, end: Rgb) -> (r: Gradient)
        ensures
            r == (Gradient { start, end }),
    {
        Gradient { start, end }
    }

    /// A gradient between two [`Color`] stops; a stop that is not an RGB
    /// color becomes black.
    pub fn from_color_rgb(start: Color, end: Color) -> (res: Gradient)
        ensures
            res.start == match start {
                Color::Rgb(r, g, b) => Rgb { r, g, b },
                _ => Rgb { r: 0, g: 0, b: 0 },
            },
            res.end == match end {
                Color::Rgb(r, g, b) => Rgb { r, g, b },
                _ => Rgb { r: 0, g: 0, b: 0 },
            },
    {
        let start_grad = match start {
            Color::Rgb(r, g, b) => Rgb { r, g, b },
            _ => Rgb { r: 0, g: 0, b: 0 },
        };
        let end_grad = match end {
            Color::Rgb(r, g, b) => Rgb { r, g, b },
            _ => Rgb { r: 0, g: 0, b: 0 },
        };
        Gradient { start: start_grad, end: end_grad }
    }

    /// The reverse of this gradient.
    pub fn reverse(&self) -> (r: Gradient)
        ensures
            r == (Gradient { start: self.end, end: self.start }),
    {
        Gradient { start: self.end, end: self.start }
    }
}

/// One gradient-wrapped character: an SGR sequence carrying the character's
/// own color, then the character.
pub open spec fn spec_gradient_piece(c: char, col: Rgb, target: TargetGround) -> Seq<char> {
    "\x1B["@ + spec_rgb_code(col, target) + "m"@ + seq![c]
}

/// The first `i` characters of a gradient text, each wrapped in its own
/// color code.
pub open spec fn spec_gradient_body(
    chars: Seq<char>,
    colors: Seq<Rgb>,
    target: TargetGround,
    i: int,
) -> Seq<char>
    decreases i,
{
    if 0 < i <= chars.len() && i <= colors.len() {
        spec_gradient_body(chars, colors, target, i - 1) + spec_gradient_piece(
            chars[i - 1],
            colors[i - 1],
            target,
        )
    } else {
        Seq::empty()
    }
}

/// One gradient-wrapped character with both grounds colored: an SGR
/// sequence carrying the foreground and background colors, then the
/// character.
pub open spec fn spec_all_gradient_piece(c: char, fg: Rgb, bg: Rgb) -> Seq<char> {
    "\x1B["@ + spec_rgb_code(fg, TargetGround::Foreground) + ";"@ + spec_rgb_code(
        bg,
        TargetGround::Background,
    ) + "m"@ + seq![c]
}

/// The first `i` characters of a dual-ground gradient text.
pub open spec fn spec_all_gradient_body(
    chars: Seq<char>,
    fg: Seq<Rgb>,
    bg: Seq<Rgb>,
    i: int,
) -> Seq<char>
    decreases i,
{
    if 0 < i <= chars.len() && i <= fg.len() && i <= bg.len() {
        spec_all_gradient_body(chars, fg, bg, i - 1) + spec_all_gradient_piece(
            chars[i - 1],
            fg[i - 1],
            bg[i - 1],
        )
    } else {
        Seq::empty()
    }
}

/// `text` with each character wrapped in the escape code of its own color,
/// closed by a full reset. `colors` holds one color per character.
pub fn build_gradient_text(text: &str, colors: &Vec<Rgb>, target: TargetGround) -> (out: String)
    requires
        colors@.len() == text@.len(),
    ensures
        out@ == spec_gradient_body(text@, colors@, target, text@.len() as int) + "\x1B[0m"@,
{
    let n = text.unicode_len();
    let mut out = String::new();
    let mut i: usize = 0;
    while i < n
        invariant
            i <= n,
            n == text@.len(),
            colors@.len() == text@.len(),
            out@ == spec_gradient_body(text@, colors@, target, i as int),
        decreases n - i,
    {
        out.append("\x1B[");
        let code = colors[i].ansi_color_code(target);
        out.append(code.as_str());
        out.append("m");
        let ch = text.substring_char(i, i + 1);
        out.append(ch);
        proof {
            assert(ch@ =~= seq![text@[i as int]]);
            assert(out@ =~= spec_gradient_body(text@, colors@, target, i + 1));
        }
        i = i + 1;
    }
    out.append("\x1B[0m");
    out
}

/// `text` with each character wrapped in an escape code carrying both its
/// foreground and its background color, closed by a full reset. Each color
/// list holds one color per character.
pub fn build_all_gradient_text(text: &str, foreground: &Vec<Rgb>, background: &Vec<Rgb>) -> (out:
    String)
    requires
        foreground@.len() == text@.len(),
        background@.len() == text@.len(),
    ensures
        out@ == spec_all_gradient_body(text@, foreground@, background@, text@.len() as int)
            + "\x1B[0m"@,
{
    let n = text.unicode_len();
    let mut out = String::new();
    let mut i: usize = 0;
    while i < n
        invariant
            i <= n,
            n == text@.len(),
            foreground@.len() == text@.len(),
            background@.len() == text@.len(),
            out@ == spec_all_gradient_body(text@, foreground@, background@, i as int),
        decreases n - i,
    {
        out.append("\x1B[");
        let fg_code = foreground[i].ansi_color_code(TargetGround::Foreground);
        out.append(fg_code.as_str());
        out.append(";");
        let bg_code = background[i].ansi_color_code(TargetGround::Background);
        out.append(bg_code.as_str());
        out.append("m");
        let ch = text.substring_char(i, i + 1);
        out.append(ch);
        proof {
            assert(ch@ =~= seq![text@[i as int]]);
            assert(out@ =~= spec_all_gradient_body(
                text@,
                foreground@,
                background@,
                i + 1,
            ));
        }
        i = i + 1;
    }
    out.append("\x1B[0m");
    out
}

} // verus!
