//! Debug renderings of styles: human-readable forms of flag sets, colors
//! and styles, and diff strings that point out where two values disagree.

use crate::ansi::{dec_digits, spec_join, u8_string, views_of};
use crate::difference::StyleDelta;
use crate::display::{content_wf, fragment_wf, AnsiGenericString, Content};
use crate::style::{Color, Coloring, FormatFlags, Style};
use itertools::Itertools;
use vstd::prelude::*;

verus! {

/// Relies on itertools' `Itertools::join`: the strings of `parts` are
/// concatenated in order, with `sep` between neighbours.
#[verifier::external_body]
fn join_strings(parts: &Vec<String>, sep: &str) -> (r: String)
    ensures
        r@ == spec_join(views_of(parts@), sep@),
{
    parts.iter().join(sep)
}

/// Whether the `i`-th attribute in alphabetical order is set.
pub open spec fn alpha_flag_at(f: FormatFlags, i: int) -> bool {
    if i == 0 {
        f.blink
    } else if i == 1 {
        f.bold
    } else if i == 2 {
        f.dimmed
    } else if i == 3 {
        f.hidden
    } else if i == 4 {
        f.italic
    } else if i == 5 {
        f.reverse
    } else if i == 6 {
        f.strikethrough
    } else {
        f.underline
    }
}

/// The lowercase name of the `i`-th attribute in alphabetical order.
pub open spec fn alpha_flag_name(i: int) -> Seq<char> {
    if i == 0 {
        "blink"@
    } else if i == 1 {
        "bold"@
    } else if i == 2 {
        "dimmed"@
    } else if i == 3 {
        "hidden"@
    } else if i == 4 {
        "italic"@
    } else if i == 5 {
        "reverse"@
    } else if i == 6 {
        "strikethrough"@
    } else {
        "underline"@
    }
}

/// The names of the set attributes among the first `i`, alphabetically.
pub open spec fn flag_names_upto(f: FormatFlags, i: int) -> Seq<Seq<char>>
    decreases i,
{
    if i <= 0 {
        Seq::empty()
    } else {
        flag_names_upto(f, i - 1) + if alpha_flag_at(f, i - 1) {
            seq![alpha_flag_name(i - 1)]
        } else {
            Seq::empty()
        }
    }
}

/// The lowercase names of all set attributes, alphabetically.
pub open spec fn spec_flag_names(f: FormatFlags) -> Seq<Seq<char>> {
    flag_names_upto(f, 8)
}

/// The names of the set attributes, one string each, alphabetically.
#[verifier::rlimit(50)]
fn flag_name_strings(f: FormatFlags) -> (v: Vec<String>)
    ensures
        views_of(v@) =~= spec_flag_names(f),
{
    let mut v: Vec<String> = Vec::new();
    assert(views_of(v@) =~= flag_names_upto(f, 0));
    if f.blink {
        v.push(String::from_str("blink"));
    }
    assert(views_of(v@) =~= flag_names_upto(f, 1));
    if f.bold {
        v.push(String::from_str("bold"));
    }
    assert(views_of(v@) =~= flag_names_upto(f, 2));
    if f.dimmed {
        v.push(String::from_str("dimmed"));
    }
    assert(views_of(v@) =~= flag_names_upto(f, 3));
    if f.hidden {
        v.push(String::from_str("hidden"));
    }
    assert(views_of(v@) =~= flag_names_upto(f, 4));
    if f.italic {
        v.push(String::from_str("italic"));
    }
    assert(views_of(v@) =~= flag_names_upto(f, 5));
    if f.reverse {
        v.push(String::from_str("reverse"));
    }
    assert(views_of(v@) =~= flag_names_upto(f, 6));
    if f.strikethrough {
        v.push(String::from_str("strikethrough"));
    }
    assert(views_of(v@) =~= flag_names_upto(f, 7));
    if f.underline {
        v.push(String::from_str("underline"));
    }
    assert(views_of(v@) =~= flag_names_upto(f, 8));
    v
}

/// The comma-joined names of the set attributes, appended to `f`.
pub fn debug_write_style_flags_to(f: &mut String, flags: FormatFlags)
    ensures
        final(f)@ == old(f)@ + spec_join(spec_flag_names(flags), ", "@),
{
    let v = flag_name_strings(flags);
    let joined = join_strings(&v, ", ");
    f.append(joined.as_str());
}

/// The debug name of a color: its variant name, with the payload of a
/// fixed or RGB color written in decimal.
pub open spec fn spec_color_name(c: Color) -> Seq<char> {
    match c {
        Color::Black => "Black"@,
        Color::Red => "Red"@,
        Color::Green => "Green"@,
        Color::Yellow => "Yellow"@,
        Color::Blue => "Blue"@,
        Color::Purple => "Purple"@,
        Color::Cyan => "Cyan"@,
        Color::White => "White"@,
        Color::DarkGray => "DarkGray"@,
        Color::LightRed => "LightRed"@,
        Color::LightGreen => "LightGreen"@,
        Color::LightYellow => "LightYellow"@,
        Color::LightBlue => "LightBlue"@,
        Color::LightPurple => "LightPurple"@,
        Color::LightCyan => "LightCyan"@,
        Color::LightGray => "LightGray"@,
        Color::Default => "Default"@,
        Color::Fixed(n) => "Fixed("@ + dec_digits(n as int) + ")"@,
        Color::Rgb(r, g, b) => "Rgb("@ + dec_digits(r as int) + ", "@ + dec_digits(g as int)
            + ", "@ + dec_digits(b as int) + ")"@,
    }
}

/// The debug name of a color.
pub fn color_debug_string(c: Color) -> (r: String)
    ensures
        r@ == spec_color_name(c),
{
    match c {
        Color::Black => String::from_str("Black"),
        Color::Red => String::from_str("Red"),
        Color::Green => String::from_str("Green"),
        Color::Yellow => String::from_str("Yellow"),
        Color::Blue => String::from_str("Blue"),
        Color::Purple => String::from_str("Purple"),
        Color::Cyan => String::from_str("Cyan"),
        Color::White => String::from_str("White"),
        Color::DarkGray => String::from_str("DarkGray"),
        Color::LightRed => String::from_str("LightRed"),
        Color::LightGreen => String::from_str("LightGreen"),
        Color::LightYellow => String::from_str("LightYellow"),
        Color::LightBlue => String::from_str("LightBlue"),
        Color::LightPurple => String::from_str("LightPurple"),
        Color::LightCyan => String::from_str("LightCyan"),
        Color::LightGray => String::from_str("LightGray"),
        Color::Default => String::from_str("Default"),
        Color::Fixed(n) => {
            let mut out = String::from_str("Fixed(");
            let d = u8_string(n);
            out.append(d.as_str());
            out.append(")");
            out
        },
        Color::Rgb(r, g, b) => {
            let mut out = String::from_str("Rgb(");
            let rd = u8_string(r);
            out.append(rd.as_str());
            out.append(", ");
            let gd = u8_string(g);
            out.append(gd.as_str());
            out.append(", ");
            let bd = u8_string(b);
            out.append(bd.as_str());
            out.append(")");
            out
        },
    }
}

/// The debug text of an optional coloring pair: `foreground(...)` and
/// `background(...)` for the channels that are set, separated by commas,
/// with a leading separator when `sep_required` holds and something is
/// written.
pub open spec fn spec_coloring_text(fg: Option<Color>, bg: Option<Color>, sep_required: bool) -> Seq<
    char,
> {
    (match fg {
        Option::None => Seq::empty(),
        Option::Some(c) => (if sep_required {
            ", "@
        } else {
            Seq::empty()
        }) + "foreground("@ + spec_color_name(c) + ")"@,
    }) + (match bg {
        Option::None => Seq::empty(),
        Option::Some(c) => (if sep_required || fg is Some {
            ", "@
        } else {
            Seq::empty()
        }) + "background("@ + spec_color_name(c) + ")"@,
    })
}

/// Append the debug text of a coloring pair; the result reports whether a
/// separator is now required before further fields.
pub fn debug_write_coloring_to(
    f: &mut String,
    fg: Option<Color>,
    bg: Option<Color>,
    sep_required: bool,
) -> (r: bool)
    ensures
        final(f)@ == old(f)@ + spec_coloring_text(fg, bg, sep_required),
        r == (sep_required || fg is Some),
{
    let mut sep = sep_required;
    match fg {
        Some(c) => {
            if sep {
                f.append(", ");
            }
            f.append("foreground(");
            let name = color_debug_string(c);
            f.append(name.as_str());
            f.append(")");
            sep = true;
        },
        None => {},
    }
    match bg {
        Some(c) => {
            if sep {
                f.append(", ");
            }
            f.append("background(");
            let name = color_debug_string(c);
            f.append(name.as_str());
            f.append(")");
        },
        None => {},
    }
    proof {
        assert(final(f)@ =~= old(f)@ + spec_coloring_text(fg, bg, sep_required));
    }
    sep
}

/// The full debug text of a style: `Style { ... }` holding the set
/// attribute names and the colored channels.
pub open spec fn spec_style_debug_text(flags: FormatFlags, fg: Option<Color>, bg: Option<Color>) -> Seq<
    char,
> {
    "Style { "@ + spec_join(spec_flag_names(flags), ", "@) + spec_coloring_text(
        fg,
        bg,
        spec_flag_names(flags).len() > 0,
    ) + " }"@
}

/// Append the full debug text of a style.
pub fn debug_write_style_to(f: &mut String, flags: FormatFlags, fg: Option<Color>, bg: Option<
    Color,
>)
    ensures
        final(f)@ == old(f)@ + spec_style_debug_text(flags, fg, bg),
{
    f.append("Style { ");
    let names = flag_name_strings(flags);
    let sep_required = names.len() > 0;
    let joined = join_strings(&names, ", ");
    f.append(joined.as_str());
    proof {
        assert(views_of(names@).len() == names@.len());
    }
    debug_write_coloring_to(f, fg, bg, sep_required);
    f.append(" }");
    proof {
        assert(final(f)@ =~= old(f)@ + spec_style_debug_text(flags, fg, bg));
    }
}

/// The full debug text of a style, as a fresh string.
pub fn debug_style_to_string(flags: FormatFlags, fg: Option<Color>, bg: Option<Color>) -> (r:
    String)
    ensures
        r@ == spec_style_debug_text(flags, fg, bg),
{
    let mut out = String::new();
    debug_write_style_to(&mut out, flags, fg, bg);
    out
}

/// Implementors resolve to a [`Style`] and can paint content with it.
pub trait DebugStylePaint: Sized {
    /// The style this value resolves to.
    spec fn spec_into_style(&self) -> Style;

    /// Resolve this value to its style.
    fn into_style(&self) -> (r: Style)
        ensures
            r == self.spec_into_style(),
    ;

    /// Paint `input` with this value's style, as an unannotated fragment.
    fn style_input(&self, input: Content) -> (r: AnsiGenericString)
        requires
            content_wf(input),
        ensures
            r.style == self.spec_into_style(),
            r.content == input,
            r.oscontrol is None,
            fragment_wf(r),
    {
        AnsiGenericString::new(self.into_style(), input, None)
    }
}

impl DebugStylePaint for Style {
    open spec fn spec_into_style(&self) -> Style {
        *self
    }

    fn into_style(&self) -> (r: Style)
        ensures
            r == self.spec_into_style(),
    {
        *self
    }
}

impl DebugStylePaint for Color {
    open spec fn spec_into_style(&self) -> Style {
        Style {
            coloring: Coloring { fg: Some(*self), bg: None },
            ..Style::spec_plain()
        }
    }

    fn into_style(&self) -> (r: Style)
        ensures
            r == self.spec_into_style(),
    {
        self.normal()
    }
}

/// A color used as a foreground.
#[derive(Clone, Copy, PartialEq, Eq, Structural, Debug)]
pub struct FgColor(pub Color);

impl DebugStylePaint for FgColor {
    open spec fn spec_into_style(&self) -> Style {
        Style {
            coloring: Coloring { fg: Some(self.0), bg: None },
            ..Style::spec_plain()
        }
    }

    fn into_style(&self) -> (r: Style)
        ensures
            r == self.spec_into_style(),
    {
        self.0.normal()
    }
}

/// A color used as a background.
#[derive(Clone, Copy, PartialEq, Eq, Structural, Debug)]
pub struct BgColor(pub Color);

impl DebugStylePaint for BgColor {
    open spec fn spec_into_style(&self) -> Style {
        Style {
            coloring: Coloring { fg: None, bg: Some(self.0) },
            ..Style::spec_plain()
        }
    }

    fn into_style(&self) -> (r: Style)
        ensures
            r == self.spec_into_style(),
    {
        self.0.bg()
    }
}

/// Implementors have a debug text and can describe how two of their values
/// differ.
pub trait DebugDiff {
    /// This value's debug text.
    spec fn spec_debug_text(&self) -> Seq<char>;

    /// How this value differs from `expected`, as text.
    spec fn spec_debug_diff(&self, expected: &Self) -> Seq<char>;

    /// This value's debug text.
    fn debug_text(&self) -> (r: String)
        ensures
            r@ == self.spec_debug_text(),
    ;

    /// Describe how this value differs from `expected`.
    fn debug_diff(&self, expected: &Self) -> (r: String)
        ensures
            r@ == self.spec_debug_diff(expected),
    ;
}

/// The attributes set in `a` but not in `b`.
pub open spec fn flags_minus(a: FormatFlags, b: FormatFlags) -> FormatFlags {
    FormatFlags {
        bold: a.bold && !b.bold,
        dimmed: a.dimmed && !b.dimmed,
        italic: a.italic && !b.italic,
        underline: a.underline && !b.underline,
        blink: a.blink && !b.blink,
        reverse: a.reverse && !b.reverse,
        hidden: a.hidden && !b.hidden,
        strikethrough: a.strikethrough && !b.strikethrough,
    }
}

/// The attributes set in `a` but not in `b`.
fn flags_minus_exec(a: &FormatFlags, b: &FormatFlags) -> (r: FormatFlags)
    ensures
        r == flags_minus(*a, *b),
{
    FormatFlags {
        bold: a.bold && !b.bold,
        dimmed: a.dimmed && !b.dimmed,
        italic: a.italic && !b.italic,
        underline: a.underline && !b.underline,
        blink: a.blink && !b.blink,
        reverse: a.reverse && !b.reverse,
        hidden: a.hidden && !b.hidden,
        strikethrough: a.strikethrough && !b.strikethrough,
    }
}

/// The bracketed, comma-joined names of a flag set.
pub open spec fn spec_flag_list(f: FormatFlags) -> Seq<char> {
    "["@ + spec_join(spec_flag_names(f), ", "@) + "]"@
}

impl DebugDiff for FormatFlags {
    open spec fn spec_debug_text(&self) -> Seq<char> {
        spec_join(spec_flag_names(*self), ", "@)
    }

    /// Equal flag sets read `<names> (no diff)`; different ones name the
    /// attributes missing on each side.
    open spec fn spec_debug_diff(&self, expected: &Self) -> Seq<char> {
        if *self == *expected {
            self.spec_debug_text() + " (no diff)"@
        } else {
            "FormatFlags((outcome) "@ + self.spec_debug_text() + " (missing: "@ + spec_flag_list(
                flags_minus(*expected, *self),
            ) + ") <~> (missing: "@ + spec_flag_list(flags_minus(*self, *expected))
                + ") "@ + expected.spec_debug_text() + " (expected))"@
        }
    }

    fn debug_text(&self) -> (r: String)
        ensures
            r@ == self.spec_debug_text(),
    {
        let names = flag_name_strings(*self);
        join_strings(&names, ", ")
    }

    fn debug_diff(&self, expected: &Self) -> (r: String)
        ensures
            r@ == self.spec_debug_diff(expected),
    {
        if *self == *expected {
            let mut out = self.debug_text();
            out.append(" (no diff)");
            out
        } else {
            let mut out = String::from_str("FormatFlags((outcome) ");
            let own = self.debug_text();
            out.append(own.as_str());
            out.append(" (missing: ");
            out.append("[");
            let missing_here = flag_name_strings(flags_minus_exec(expected, self));
            let joined = join_strings(&missing_here, ", ");
            out.append(joined.as_str());
            out.append("]");
            out.append(") <~> (missing: ");
            out.append("[");
            let missing_there = flag_name_strings(flags_minus_exec(self, expected));
            let joined2 = join_strings(&missing_there, ", ");
            out.append(joined2.as_str());
            out.append("]");
            out.append(") ");
            let theirs = expected.debug_text();
            out.append(theirs.as_str());
            out.append(" (expected))");
            proof {
                assert(out@ =~= self.spec_debug_diff(expected));
            }
            out
        }
    }
}

impl DebugDiff for Color {
    open spec fn spec_debug_text(&self) -> Seq<char> {
        spec_color_name(*self)
    }

    /// Equal colors read `<name> (no diff)`; different ones are shown side
    /// by side.
    open spec fn spec_debug_diff(&self, expected: &Self) -> Seq<char> {
        if *self == *expected {
            spec_color_name(*self) + " (no diff)"@
        } else {
            "Color((outcome) "@ + spec_color_name(*self) + " != "@ + spec_color_name(*expected)
                + " (expected))"@
        }
    }

    fn debug_text(&self) -> (r: String)
        ensures
            r@ == self.spec_debug_text(),
    {
        color_debug_string(*self)
    }

    fn debug_diff(&self, expected: &Self) -> (r: String)
        ensures
            r@ == self.spec_debug_diff(expected),
    {
        if *self == *expected {
            let mut out = color_debug_string(*self);
            out.append(" (no diff)");
            out
        } else {
            let mut out = String::from_str("Color((outcome) ");
            let own = color_debug_string(*self);
            out.append(own.as_str());
            out.append(" != ");
            let theirs = color_debug_string(*expected);
            out.append(theirs.as_str());
            out.append(" (expected))");
            proof {
                assert(out@ =~= self.spec_debug_diff(expected));
            }
            out
        }
    }
}

impl<T: DebugDiff> DebugDiff for Option<T> {
    open spec fn spec_debug_text(&self) -> Seq<char> {
        match self {
            Option::None => "None"@,
            Option::Some(x) => "Some("@ + x.spec_debug_text() + ")"@,
        }
    }

    /// Two absent values read `None (no diff)`; a present pair delegates to
    /// the inner diff; a mixed pair is shown side by side.
    open spec fn spec_debug_diff(&self, expected: &Self) -> Seq<char> {
        match (self, expected) {
            (Option::None, Option::None) => "None (no diff)"@,
            (Option::None, Option::Some(e)) => "(outcome) None != "@ + e.spec_debug_text()
                + " (expected)"@,
            (Option::Some(o), Option::None) => "(outcome) "@ + o.spec_debug_text()
                + " != None (expected)"@,
            (Option::Some(o), Option::Some(e)) => "Option<"@ + o.spec_debug_diff(e) + ">"@,
        }
    }

    fn debug_text(&self) -> (r: String)
        ensures
            r@ == self.spec_debug_text(),
    {
        match self {
            None => String::from_str("None"),
            Some(x) => {
                let mut out = String::from_str("Some(");
                let inner = x.debug_text();
                out.append(inner.as_str());
                out.append(")");
                out
            },
        }
    }

    fn debug_diff(&self, expected: &Self) -> (r: String)
        ensures
            r@ == self.spec_debug_diff(expected),
    {
        match (self, expected) {
            (None, None) => String::from_str("None (no diff)"),
            (None, Some(e)) => {
                let mut out = String::from_str("(outcome) None != ");
                let inner = e.debug_text();
                out.append(inner.as_str());
                out.append(" (expected)");
                out
            },
            (Some(o), None) => {
                let mut out = String::from_str("(outcome) ");
                let inner = o.debug_text();
                out.append(inner.as_str());
                out.append(" != None (expected)");
                out
            },
            (Some(o), Some(e)) => {
                let mut out = String::from_str("Option<");
                let inner = o.debug_diff(e);
                out.append(inner.as_str());
                out.append(">");
                out
            },
        }
    }
}

impl DebugDiff for Coloring {
    open spec fn spec_debug_text(&self) -> Seq<char> {
        spec_coloring_text(self.fg, self.bg, false)
    }

    /// Both channels are diffed independently, each through the optional
    /// color diff.
    open spec fn spec_debug_diff(&self, expected: &Self) -> Seq<char> {
        "Coloring {\n\tforeground: "@ + self.fg.spec_debug_diff(&expected.fg)
            + ",\n\tbackground: "@ + self.bg.spec_debug_diff(&expected.bg) + ",\n}"@
    }

    fn debug_text(&self) -> (r: String)
        ensures
            r@ == self.spec_debug_text(),
    {
        let mut out = String::new();
        debug_write_coloring_to(&mut out, self.fg, self.bg, false);
        out
    }

    fn debug_diff(&self, expected: &Self) -> (r: String)
        ensures
            r@ == self.spec_debug_diff(expected),
    {
        let mut out = String::from_str("Coloring {\n\tforeground: ");
        let fg_diff = self.fg.debug_diff(&expected.fg);
        out.append(fg_diff.as_str());
        out.append(",\n\tbackground: ");
        let bg_diff = self.bg.debug_diff(&expected.bg);
        out.append(bg_diff.as_str());
        out.append(",\n}");
        out
    }
}

impl DebugDiff for Style {
    open spec fn spec_debug_text(&self) -> Seq<char> {
        spec_style_debug_text(self.formats, self.coloring.fg, self.coloring.bg)
    }

    /// The flag sets and the colorings are diffed independently.
    open spec fn spec_debug_diff(&self, expected: &Self) -> Seq<char> {
        "Style {\n\tflags: "@ + self.formats.spec_debug_diff(&expected.formats)
            + ",\n\tcoloring: "@ + self.coloring.spec_debug_diff(&expected.coloring) + ",\n}"@
    }

    fn debug_text(&self) -> (r: String)
        ensures
            r@ == self.spec_debug_text(),
    {
        debug_style_to_string(self.formats, self.coloring.fg, self.coloring.bg)
    }

    fn debug_diff(&self, expected: &Self) -> (r: String)
        ensures
            r@ == self.spec_debug_diff(expected),
    {
        let mut out = String::from_str("Style {\n\tflags: ");
        let flags_diff = self.formats.debug_diff(&expected.formats);
        out.append(flags_diff.as_str());
        out.append(",\n\tcoloring: ");
        let coloring_diff = self.coloring.debug_diff(&expected.coloring);
        out.append(coloring_diff.as_str());
        out.append(",\n}");
        out
    }
}

impl DebugDiff for StyleDelta {
    open spec fn spec_debug_text(&self) -> Seq<char> {
        match self {
            StyleDelta::Empty => "Empty"@,
            StyleDelta::ExtraStyles(s) => "ExtraStyles("@ + s.spec_debug_text() + ")"@,
        }
    }

    /// Equal deltas read `... (no diff)`; two full styles delegate to the
    /// style diff; a mixed pair is shown side by side.
    open spec fn spec_debug_diff(&self, expected: &Self) -> Seq<char> {
        if *self == *expected {
            self.spec_debug_text() + " (no diff)"@
        } else {
            match (self, expected) {
                (StyleDelta::ExtraStyles(o), StyleDelta::ExtraStyles(e)) => "StyleDelta::ExtraStyles("@
                    + o.spec_debug_diff(e) + ")"@,
                (StyleDelta::ExtraStyles(o), StyleDelta::Empty) => "StyleDelta::ExtraStyles("@
                    + o.spec_debug_text() + " != Empty)"@,
                _ => "StyleDelta::ExtraStyles(Empty != "@ + expected.spec_debug_text() + ")"@,
            }
        }
    }

    fn debug_text(&self) -> (r: String)
        ensures
            r@ == self.spec_debug_text(),
    {
        match self {
            StyleDelta::Empty => String::from_str("Empty"),
            StyleDelta::ExtraStyles(s) => {
                let mut out = String::from_str("ExtraStyles(");
                let inner = s.debug_text();
                out.append(inner.as_str());
                out.append(")");
                out
            },
        }
    }

    fn debug_diff(&self, expected: &Self) -> (r: String)
        ensures
            r@ == self.spec_debug_diff(expected),
    {
        if *self == *expected {
            let mut out = self.debug_text();
            out.append(" (no diff)");
            out
        } else {
            match (self, expected) {
                (StyleDelta::ExtraStyles(o), StyleDelta::ExtraStyles(e)) => {
                    let mut out = String::from_str("StyleDelta::ExtraStyles(");
                    let inner = o.debug_diff(e);
                    out.append(inner.as_str());
                    out.append(")");
                    out
                },
                (StyleDelta::ExtraStyles(o), StyleDelta::Empty) => {
                    let mut out = String::from_str("StyleDelta::ExtraStyles(");
                    let inner = o.debug_text();
                    out.append(inner.as_str());
                    out.append(" != Empty)");
                    out
                },
                _ => {
                    let mut out = String::from_str("StyleDelta::ExtraStyles(Empty != ");
                    let inner = expected.debug_text();
                    out.append(inner.as_str());
                    out.append(")");
                    out
                },
            }
        }
    }
}

} // verus!
