//! The style model: format attributes, colors, and the [`Style`] value that
//! combines them.

use vstd::prelude::*;

verus! {

/// The set of independent boolean format attributes a style can carry.
///
/// Two flag sets are equal exactly when every attribute agrees.
#[derive(Clone, Copy, PartialEq, Eq, Structural, Debug)]
pub struct FormatFlags {
    pub bold: bool,
    pub dimmed: bool,
    pub italic: bool,
    pub underline: bool,
    pub blink: bool,
    pub reverse: bool,
    pub hidden: bool,
    pub strikethrough: bool,
}

impl FormatFlags {
    /// The flag set with every attribute off.
    pub open spec fn spec_empty() -> FormatFlags {
        FormatFlags {
            bold: false,
            dimmed: false,
            italic: false,
            underline: false,
            blink: false,
            reverse: false,
            hidden: false,
            strikethrough: false,
        }
    }

    /// Every attribute of `self` is also set in `other`.
    pub open spec fn subset_of(self, other: FormatFlags) -> bool {
        &&& self.bold ==> other.bold
        &&& self.dimmed ==> other.dimmed
        &&& self.italic ==> other.italic
        &&& self.underline ==> other.underline
        &&& self.blink ==> other.blink
        &&& self.reverse ==> other.reverse
        &&& self.hidden ==> other.hidden
        &&& self.strikethrough ==> other.strikethrough
    }

    /// The attribute-wise OR of two flag sets.
    pub open spec fn union(self, other: FormatFlags) -> FormatFlags {
        FormatFlags {
            bold: self.bold || other.bold,
            dimmed: self.dimmed || other.dimmed,
            italic: self.italic || other.italic,
            underline: self.underline || other.underline,
            blink: self.blink || other.blink,
            reverse: self.reverse || other.reverse,
            hidden: self.hidden || other.hidden,
            strikethrough: self.strikethrough || other.strikethrough,
        }
    }

    /// The flag set with every attribute off.
    pub fn empty() -> (r: FormatFlags)
        ensures
            r == FormatFlags::spec_empty(),
    {
        FormatFlags {
            bold: false,
            dimmed: false,
            italic: false,
            underline: false,
            blink: false,
            reverse: false,
            hidden: false,
            strikethrough: false,
        }
    }

    /// Whether every attribute of `self` is also set in `other`.
    pub fn subset_of_exec(&self, other: &Self) -> (r: bool)
        ensures
            r == self.subset_of(*other),
    {
        (!self.bold || other.bold) && (!self.dimmed || other.dimmed) && (!self.italic
            || other.italic) && (!self.underline || other.underline) && (!self.blink
            || other.blink) && (!self.reverse || other.reverse) && (!self.hidden || other.hidden)
            && (!self.strikethrough || other.strikethrough)
    }

    /// The attribute-wise OR of `self` and `other`.
    pub fn merged(self, other: FormatFlags) -> (r: FormatFlags)
        ensures
            r == self.union(other),
    {
        FormatFlags {
            bold: self.bold || other.bold,
            dimmed: self.dimmed || other.dimmed,
            italic: self.italic || other.italic,
            underline: self.underline || other.underline,
            blink: self.blink || other.blink,
            reverse: self.reverse || other.reverse,
            hidden: self.hidden || other.hidden,
            strikethrough: self.strikethrough || other.strikethrough,
        }
    }
}

impl Default for FormatFlags {
    /// The flag set with every attribute off.
    fn default() -> (r: FormatFlags)
        ensures
            r == FormatFlags::spec_empty(),
    {
        FormatFlags::empty()
    }
}

/// A terminal color: the terminal's default, one of sixteen named colors,
/// a fixed 256-palette index, or a 24-bit RGB triple.
#[derive(Clone, Copy, PartialEq, Eq, Structural, Debug)]
pub enum Color {
    Black,
    Red,
    Green,
    Yellow,
    Blue,
    Purple,
    Cyan,
    White,
    DarkGray,
    LightRed,
    LightGreen,
    LightYellow,
    LightBlue,
    LightPurple,
    LightCyan,
    LightGray,
    Default,
    Fixed(u8),
    Rgb(u8, u8, u8),
}

/// The optional foreground and background color of a style, each channel
/// independently present or absent.
#[derive(Clone, Copy, PartialEq, Eq, Structural, Debug)]
pub struct Coloring {
    pub fg: Option<Color>,
    pub bg: Option<Color>,
}

impl Coloring {
    /// No color on either channel.
    pub open spec fn spec_none() -> Coloring {
        Coloring { fg: None, bg: None }
    }
}

/// Format attributes plus coloring, and a marker that asks the renderer to
/// emit a full reset before this style's own codes.
///
/// The marker does not take part in style equality: two styles look the same
/// exactly when their flags and coloring agree (see [`Style::same_look`]).
#[derive(Clone, Copy, PartialEq, Eq, Structural, Debug)]
pub struct Style {
    pub formats: FormatFlags,
    pub coloring: Coloring,
    pub reset_prefix: bool,
}

impl Style {
    /// The plain style: no attributes, no colors, no reset marker.
    pub open spec fn spec_plain() -> Style {
        Style {
            formats: FormatFlags::spec_empty(),
            coloring: Coloring::spec_none(),
            reset_prefix: false,
        }
    }

    /// Two styles look the same when flags and coloring agree; the
    /// `reset_prefix` marker is ignored.
    pub open spec fn same_look(self, other: Style) -> bool {
        self.formats == other.formats && self.coloring == other.coloring
    }

    /// A style that renders to no escape codes at all: no attributes and no
    /// colors (the reset marker is ignored, as for equality).
    pub open spec fn is_plain_look(self) -> bool {
        self.formats == FormatFlags::spec_empty() && self.coloring == Coloring::spec_none()
    }

    /// Everything `other` establishes at the terminal is also established by
    /// `self`: every attribute of `other` is set in `self`, and a colored
    /// channel of `other` is also colored in `self`. When this holds, emitting
    /// `self`'s codes fully overrides `other` without a reset in between.
    pub open spec fn covers(self, other: Style) -> bool {
        &&& other.formats.subset_of(self.formats)
        &&& other.coloring.fg is Some ==> self.coloring.fg is Some
        &&& other.coloring.bg is Some ==> self.coloring.bg is Some
    }

    /// The result of rebasing `self` onto an ambient `base` style: attributes
    /// are OR-merged, and each color channel keeps `self`'s explicit color
    /// when there is one, falling through to `base`'s otherwise.
    pub open spec fn spec_rebase_on(self, base: Style) -> Style {
        Style {
            formats: self.formats.union(base.formats),
            coloring: Coloring {
                fg: if self.coloring.fg is Some {
                    self.coloring.fg
                } else {
                    base.coloring.fg
                },
                bg: if self.coloring.bg is Some {
                    self.coloring.bg
                } else {
                    base.coloring.bg
                },
            },
            reset_prefix: self.reset_prefix,
        }
    }

    /// A new, plain style.
    pub fn new() -> (r: Style)
        ensures
            r == Style::spec_plain(),
    {
        Style {
            formats: FormatFlags::empty(),
            coloring: Coloring { fg: None, bg: None },
            reset_prefix: false,
        }
    }

    /// Whether this style renders to no escape codes.
    pub fn has_no_styling(&self) -> (r: bool)
        ensures
            r == self.is_plain_look(),
    {
        self.formats == FormatFlags::empty() && self.coloring.fg.is_none()
            && self.coloring.bg.is_none()
    }

    /// Whether `self` and `other` look the same (ignoring the reset marker).
    pub fn looks_like(&self, other: &Style) -> (r: bool)
        ensures
            r == self.same_look(*other),
    {
        self.formats == other.formats && coloring_eq(&self.coloring, &other.coloring)
    }

    /// `self` with the bold attribute set.
    pub fn bold(self) -> (r: Style)
        ensures
            r == (Style { formats: FormatFlags { bold: true, ..self.formats }, ..self }),
    {
        Style { formats: FormatFlags { bold: true, ..self.formats }, ..self }
    }

    /// `self` with the dimmed attribute set.
    pub fn dimmed(self) -> (r: Style)
        ensures
            r == (Style { formats: FormatFlags { dimmed: true, ..self.formats }, ..self }),
    {
        Style { formats: FormatFlags { dimmed: true, ..self.formats }, ..self }
    }

    /// `self` with the italic attribute set.
    pub fn italic(self) -> (r: Style)
        ensures
            r == (Style { formats: FormatFlags { italic: true, ..self.formats }, ..self }),
    {
        Style { formats: FormatFlags { italic: true, ..self.formats }, ..self }
    }

    /// `self` with the underline attribute set.
    pub fn underline(self) -> (r: Style)
        ensures
            r == (Style { formats: FormatFlags { underline: true, ..self.formats }, ..self }),
    {
        Style { formats: FormatFlags { underline: true, ..self.formats }, ..self }
    }

    /// `self` with the blink attribute set.
    pub fn blink(self) -> (r: Style)
        ensures
            r == (Style { formats: FormatFlags { blink: true, ..self.formats }, ..self }),
    {
        Style { formats: FormatFlags { blink: true, ..self.formats }, ..self }
    }

    /// `self` with the reverse attribute set.
    pub fn reverse(self) -> (r: Style)
        ensures
            r == (Style { formats: FormatFlags { reverse: true, ..self.formats }, ..self }),
    {
        Style { formats: FormatFlags { reverse: true, ..self.formats }, ..self }
    }

    /// `self` with the hidden attribute set.
    pub fn hidden(self) -> (r: Style)
        ensures
            r == (Style { formats: FormatFlags { hidden: true, ..self.formats }, ..self }),
    {
        Style { formats: FormatFlags { hidden: true, ..self.formats }, ..self }
    }

    /// `self` with the strikethrough attribute set.
    pub fn strikethrough(self) -> (r: Style)
        ensures
            r == (Style { formats: FormatFlags { strikethrough: true, ..self.formats }, ..self }),
    {
        Style { formats: FormatFlags { strikethrough: true, ..self.formats }, ..self }
    }

    /// `self` with the foreground color set to `color`, overwriting any
    /// earlier foreground.
    pub fn fg(self, color: Color) -> (r: Style)
        ensures
            r == (Style {
                coloring: Coloring { fg: Some(color), ..self.coloring },
                ..self
            }),
    {
        Style { coloring: Coloring { fg: Some(color), ..self.coloring }, ..self }
    }

    /// `self` with the background color set to `color`, overwriting any
    /// earlier background.
    pub fn on_bg(self, color: Color) -> (r: Style)
        ensures
            r == (Style {
                coloring: Coloring { bg: Some(color), ..self.coloring },
                ..self
            }),
    {
        Style { coloring: Coloring { bg: Some(color), ..self.coloring }, ..self }
    }

    /// `self` with the `reset_prefix` marker set as given.
    pub open spec fn spec_with_reset(self, reset: bool) -> Style {
        Style { reset_prefix: reset, ..self }
    }

    /// `self` with the `reset_prefix` marker set as given.
    #[verifier::when_used_as_spec(spec_with_reset)]
    pub fn with_reset(self, reset: bool) -> (r: Style)
        ensures
            r == (Style { reset_prefix: reset, ..self }),
    {
        Style { reset_prefix: reset, ..self }
    }

    /// Rebase `self` onto an ambient `base` style: OR-merge of the attributes,
    /// and each color channel falls through to `base` where `self` set none.
    pub fn rebase_on(self, base: Style) -> (r: Style)
        ensures
            r == self.spec_rebase_on(base),
    {
        Style {
            formats: self.formats.merged(base.formats),
            coloring: Coloring {
                fg: if self.coloring.fg.is_some() {
                    self.coloring.fg
                } else {
                    base.coloring.fg
                },
                bg: if self.coloring.bg.is_some() {
                    self.coloring.bg
                } else {
                    base.coloring.bg
                },
            },
            reset_prefix: self.reset_prefix,
        }
    }
}

impl Default for Style {
    /// The plain style.
    fn default() -> (r: Style)
        ensures
            r == Style::spec_plain(),
    {
        Style::new()
    }
}

/// Whether two colorings agree on both channels.
pub fn coloring_eq(a: &Coloring, b: &Coloring) -> (r: bool)
    ensures
        r == (*a == *b),
{
    let fg_eq: bool = match (a.fg, b.fg) {
        (None, None) => true,
        (Some(x), Some(y)) => x == y,
        _ => false,
    };
    let bg_eq: bool = match (a.bg, b.bg) {
        (None, None) => true,
        (Some(x), Some(y)) => x == y,
        _ => false,
    };
    fg_eq && bg_eq
}

impl Color {
    /// A style whose foreground is this color and nothing else.
    pub fn as_fg(self) -> (r: Style)
        ensures
            r == (Style {
                coloring: Coloring { fg: Some(self), bg: None },
                ..Style::spec_plain()
            }),
    {
        Style::new().fg(self)
    }

    /// A style whose foreground is this color and nothing else.
    pub fn normal(self) -> (r: Style)
        ensures
            r == (Style {
                coloring: Coloring { fg: Some(self), bg: None },
                ..Style::spec_plain()
            }),
    {
        self.as_fg()
    }

    /// A style whose background is this color and nothing else.
    pub fn as_bg(self) -> (r: Style)
        ensures
            r == (Style {
                coloring: Coloring { fg: None, bg: Some(self) },
                ..Style::spec_plain()
            }),
    {
        Style::new().on_bg(self)
    }

    /// A style whose background is this color and nothing else.
    pub fn bg(self) -> (r: Style)
        ensures
            r == (Style {
                coloring: Coloring { fg: None, bg: Some(self) },
                ..Style::spec_plain()
            }),
    {
        self.as_bg()
    }

    /// A style with this color as foreground and `background` as background.
    pub fn on(self, background: Color) -> (r: Style)
        ensures
            r == (Style {
                coloring: Coloring { fg: Some(self), bg: Some(background) },
                ..Style::spec_plain()
            }),
    {
        self.as_fg().on_bg(background)
    }

    /// A style with this color as foreground and `background` as background.
    pub fn on_bg(self, background: Color) -> (r: Style)
        ensures
            r == (Style {
                coloring: Coloring { fg: Some(self), bg: Some(background) },
                ..Style::spec_plain()
            }),
    {
        self.on(background)
    }

    /// A foreground style in this color, with the bold attribute set.
    pub fn bold(self) -> (r: Style)
        ensures
            r == (Style {
                formats: FormatFlags { bold: true, ..FormatFlags::spec_empty() },
                coloring: Coloring { fg: Some(self), bg: None },
                reset_prefix: false,
            }),
    {
        self.as_fg().bold()
    }

    /// A foreground style in this color, with the italic attribute set.
    pub fn italic(self) -> (r: Style)
        ensures
            r == (Style {
                formats: FormatFlags { italic: true, ..FormatFlags::spec_empty() },
                coloring: Coloring { fg: Some(self), bg: None },
                reset_prefix: false,
            }),
    {
        self.as_fg().italic()
    }

    /// A foreground style in this color, with the underline attribute set.
    pub fn underline(self) -> (r: Style)
        ensures
            r == (Style {
                formats: FormatFlags { underline: true, ..FormatFlags::spec_empty() },
                coloring: Coloring { fg: Some(self), bg: None },
                reset_prefix: false,
            }),
    {
        self.as_fg().underline()
    }
}

} // verus!
