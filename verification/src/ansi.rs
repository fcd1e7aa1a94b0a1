//! Mapping of a [`Style`] to its concrete ANSI escape codes.
//!
//! The SGR prefix is `\x1B[` + semicolon-joined numeric codes + `m`; the
//! suffix (and the single reset emitted by a style with the `reset_prefix`
//! marker) is `\x1B[0m`. The underline attribute's code is `4`, or the
//! zero-padded legacy form `04` when the legacy option is chosen.

use crate::style::{Color, FormatFlags, Style};
use vstd::prelude::*;

verus! {

/// The full-reset escape code.
pub const RESET: &'static str = "\x1B[0m";

/// The characters of the full-reset escape code.
pub open spec fn reset_seq() -> Seq<char> {
    "\x1B[0m"@
}

/// The views of a sequence of strings.
pub open spec fn views_of(v: Seq<String>) -> Seq<Seq<char>> {
    v.map_values(|s: String| s@)
}

/// The decimal digit character for `d` (0 through 9).
pub open spec fn digit_char(d: int) -> char {
    if d == 0 {
        '0'
    } else if d == 1 {
        '1'
    } else if d == 2 {
        '2'
    } else if d == 3 {
        '3'
    } else if d == 4 {
        '4'
    } else if d == 5 {
        '5'
    } else if d == 6 {
        '6'
    } else if d == 7 {
        '7'
    } else if d == 8 {
        '8'
    } else {
        '9'
    }
}

/// The decimal digits of `n`, most significant first.
pub open spec fn dec_digits(n: int) -> Seq<char>
    decreases n,
{
    if n < 10 {
        seq![digit_char(n)]
    } else {
        dec_digits(n / 10).push(digit_char(n % 10))
    }
}

/// The strings `parts` concatenated with `sep` between neighbours.
pub open spec fn spec_join(parts: Seq<Seq<char>>, sep: Seq<char>) -> Seq<char>
    decreases parts.len(),
{
    if parts.len() == 0 {
        Seq::empty()
    } else if parts.len() == 1 {
        parts[0]
    } else {
        parts[0] + sep + spec_join(parts.drop_first(), sep)
    }
}

/// Appending one more part to a join appends a separator (when the join was
/// not empty) and the part.
pub proof fn lemma_join_push(parts: Seq<Seq<char>>, sep: Seq<char>, last: Seq<char>)
    ensures
        spec_join(parts.push(last), sep) == if parts.len() == 0 {
            last
        } else {
            spec_join(parts, sep) + sep + last
        },
    decreases parts.len(),
{
    if parts.len() == 0 {
        assert(parts.push(last) =~= seq![last]);
        assert(spec_join(parts.push(last), sep) == last);
    } else {
        let whole = parts.push(last);
        assert(whole.len() >= 2);
        assert(whole[0] == parts[0]);
        assert(whole.drop_first() =~= parts.drop_first().push(last));
        lemma_join_push(parts.drop_first(), sep, last);
        if parts.len() == 1 {
            assert(parts.drop_first().len() == 0);
            assert(spec_join(whole, sep) == parts[0] + sep + last);
            assert(spec_join(parts, sep) == parts[0]);
        } else {
            assert(spec_join(whole, sep) == parts[0] + sep + (spec_join(
                parts.drop_first(),
                sep,
            ) + sep + last));
            assert(spec_join(parts, sep) + sep + last == (parts[0] + sep + spec_join(
                parts.drop_first(),
                sep,
            )) + sep + last);
            assert(spec_join(whole, sep) =~= spec_join(parts, sep) + sep + last);
        }
    }
}

/// Whether the `i`-th attribute (in emission order) is set.
pub open spec fn flag_at(f: FormatFlags, i: int) -> bool {
    if i == 0 {
        f.bold
    } else if i == 1 {
        f.dimmed
    } else if i == 2 {
        f.italic
    } else if i == 3 {
        f.underline
    } else if i == 4 {
        f.blink
    } else if i == 5 {
        f.reverse
    } else if i == 6 {
        f.hidden
    } else {
        f.strikethrough
    }
}

/// The numeric code emitted for the `i`-th attribute; underline is `4`, or
/// the zero-padded legacy form `04` under the legacy option.
pub open spec fn flag_code_str(i: int, legacy_underline: bool) -> Seq<char> {
    if i == 0 {
        "1"@
    } else if i == 1 {
        "2"@
    } else if i == 2 {
        "3"@
    } else if i == 3 {
        if legacy_underline {
            "04"@
        } else {
            "4"@
        }
    } else if i == 4 {
        "5"@
    } else if i == 5 {
        "7"@
    } else if i == 6 {
        "8"@
    } else {
        "9"@
    }
}

/// The codes of the first `i` attributes that are set, in emission order.
pub open spec fn flag_codes_upto(f: FormatFlags, legacy_underline: bool, i: int) -> Seq<Seq<char>>
    decreases i,
{
    if i <= 0 {
        Seq::empty()
    } else {
        flag_codes_upto(f, legacy_underline, i - 1) + if flag_at(f, i - 1) {
            seq![flag_code_str(i - 1, legacy_underline)]
        } else {
            Seq::empty()
        }
    }
}

/// The codes of all set attributes, in emission order.
pub open spec fn spec_flag_codes(f: FormatFlags, legacy_underline: bool) -> Seq<Seq<char>> {
    flag_codes_upto(f, legacy_underline, 8)
}

/// The numeric codes for `c` as a foreground color.
pub open spec fn fg_codes(c: Color) -> Seq<Seq<char>> {
    match c {
        Color::Black => seq!["30"@],
        Color::Red => seq!["31"@],
        Color::Green => seq!["32"@],
        Color::Yellow => seq!["33"@],
        Color::Blue => seq!["34"@],
        Color::Purple => seq!["35"@],
        Color::Cyan => seq!["36"@],
        Color::White => seq!["37"@],
        Color::DarkGray => seq!["90"@],
        Color::LightRed => seq!["91"@],
        Color::LightGreen => seq!["92"@],
        Color::LightYellow => seq!["93"@],
        Color::LightBlue => seq!["94"@],
        Color::LightPurple => seq!["95"@],
        Color::LightCyan => seq!["96"@],
        Color::LightGray => seq!["97"@],
        Color::Default => seq!["39"@],
        Color::Fixed(n) => seq!["38"@, "5"@, dec_digits(n as int)],
        Color::Rgb(r, g, b) => seq![
            "38"@,
            "2"@,
            dec_digits(r as int),
            dec_digits(g as int),
            dec_digits(b as int),
        ],
    }
}

/// The numeric codes for `c` as a background color.
pub open spec fn bg_codes(c: Color) -> Seq<Seq<char>> {
    match c {
        Color::Black => seq!["40"@],
        Color::Red => seq!["41"@],
        Color::Green => seq!["42"@],
        Color::Yellow => seq!["43"@],
        Color::Blue => seq!["44"@],
        Color::Purple => seq!["45"@],
        Color::Cyan => seq!["46"@],
        Color::White => seq!["47"@],
        Color::DarkGray => seq!["100"@],
        Color::LightRed => seq!["101"@],
        Color::LightGreen => seq!["102"@],
        Color::LightYellow => seq!["103"@],
        Color::LightBlue => seq!["104"@],
        Color::LightPurple => seq!["105"@],
        Color::LightCyan => seq!["106"@],
        Color::LightGray => seq!["107"@],
        Color::Default => seq!["49"@],
        Color::Fixed(n) => seq!["48"@, "5"@, dec_digits(n as int)],
        Color::Rgb(r, g, b) => seq![
            "48"@,
            "2"@,
            dec_digits(r as int),
            dec_digits(g as int),
            dec_digits(b as int),
        ],
    }
}

/// All numeric codes of a style, in emission order: attributes, then
/// foreground, then background.
pub open spec fn spec_style_codes(s: Style, legacy_underline: bool) -> Seq<Seq<char>> {
    spec_flag_codes(s.formats, legacy_underline) + (match s.coloring.fg {
        Option::None => Seq::empty(),
        Option::Some(c) => fg_codes(c),
    }) + (match s.coloring.bg {
        Option::None => Seq::empty(),
        Option::Some(c) => bg_codes(c),
    })
}

/// The semicolon-joined parameter list of a style's SGR prefix.
pub open spec fn spec_style_params(s: Style, legacy_underline: bool) -> Seq<char> {
    spec_join(spec_style_codes(s, legacy_underline), ";"@)
}

/// The full prefix a style renders to: a reset when the style carries the
/// `reset_prefix` marker, then the SGR sequence — which is empty for a
/// plain-looking style.
pub open spec fn spec_prefix(s: Style, legacy_underline: bool) -> Seq<char> {
    (if s.reset_prefix {
        reset_seq()
    } else {
        Seq::empty()
    }) + (if s.is_plain_look() {
        Seq::empty()
    } else {
        "\x1B["@ + spec_style_params(s, legacy_underline) + "m"@
    })
}

/// The suffix a style renders to: nothing for a plain-looking style, the
/// full reset otherwise.
pub open spec fn spec_suffix(s: Style) -> Seq<char> {
    if s.is_plain_look() {
        Seq::empty()
    } else {
        reset_seq()
    }
}

/// The decimal digit string for `d`.
fn digit_str(d: u8) -> (r: &'static str)
    requires
        d < 10,
    ensures
        r@ == seq![digit_char(d as int)],
{
    proof {
        reveal_strlit("0");
        reveal_strlit("1");
        reveal_strlit("2");
        reveal_strlit("3");
        reveal_strlit("4");
        reveal_strlit("5");
        reveal_strlit("6");
        reveal_strlit("7");
        reveal_strlit("8");
        reveal_strlit("9");
    }
    let r: &'static str = match d {
        0 => "0",
        1 => "1",
        2 => "2",
        3 => "3",
        4 => "4",
        5 => "5",
        6 => "6",
        7 => "7",
        8 => "8",
        _ => "9",
    };
    proof {
        assert(r@ =~= seq![digit_char(d as int)]);
    }
    r
}

/// The decimal digit string of `n`, most significant digit first.
pub fn u8_string(n: u8) -> (r: String)
    ensures
        r@ == dec_digits(n as int),
{
    if n < 10 {
        String::from_str(digit_str(n))
    } else if n < 100 {
        let mut out = String::from_str(digit_str(n / 10));
        out.append(digit_str(n % 10));
        proof {
            assert(dec_digits(n as int) == dec_digits(n as int / 10).push(
                digit_char(n as int % 10),
            ));
            assert(dec_digits(n as int / 10) == seq![digit_char(n as int / 10)]);
            assert(out@ =~= dec_digits(n as int));
        }
        out
    } else {
        let mut out = String::from_str(digit_str(n / 100));
        out.append(digit_str((n / 10) % 10));
        out.append(digit_str(n % 10));
        proof {
            assert((n as int / 10) / 10 == n as int / 100) by (nonlinear_arith);
            assert(dec_digits(n as int) == dec_digits(n as int / 10).push(
                digit_char(n as int % 10),
            ));
            assert(dec_digits(n as int / 10) == dec_digits(n as int / 100).push(
                digit_char((n as int / 10) % 10),
            ));
            assert(dec_digits(n as int / 100) == seq![digit_char(n as int / 100)]);
            assert(out@ =~= dec_digits(n as int));
        }
        out
    }
}

/// The code strings for `c` as a foreground color, appended to `out`.
fn push_fg_codes(out: &mut Vec<String>, c: Color)
    ensures
        views_of(final(out)@) =~= views_of(old(out)@) + fg_codes(c),
{
    match c {
        Color::Black => out.push(String::from_str("30")),
        Color::Red => out.push(String::from_str("31")),
        Color::Green => out.push(String::from_str("32")),
        Color::Yellow => out.push(String::from_str("33")),
        Color::Blue => out.push(String::from_str("34")),
        Color::Purple => out.push(String::from_str("35")),
        Color::Cyan => out.push(String::from_str("36")),
        Color::White => out.push(String::from_str("37")),
        Color::DarkGray => out.push(String::from_str("90")),
        Color::LightRed => out.push(String::from_str("91")),
        Color::LightGreen => out.push(String::from_str("92")),
        Color::LightYellow => out.push(String::from_str("93")),
        Color::LightBlue => out.push(String::from_str("94")),
        Color::LightPurple => out.push(String::from_str("95")),
        Color::LightCyan => out.push(String::from_str("96")),
        Color::LightGray => out.push(String::from_str("97")),
        Color::Default => out.push(String::from_str("39")),
        Color::Fixed(n) => {
            out.push(String::from_str("38"));
            out.push(String::from_str("5"));
            out.push(u8_string(n));
        },
        Color::Rgb(r, g, b) => {
            out.push(String::from_str("38"));
            out.push(String::from_str("2"));
            out.push(u8_string(r));
            out.push(u8_string(g));
            out.push(u8_string(b));
        },
    }
}

/// The code strings for `c` as a background color, appended to `out`.
fn push_bg_codes(out: &mut Vec<String>, c: Color)
    ensures
        views_of(final(out)@) =~= views_of(old(out)@) + bg_codes(c),
{
    match c {
        Color::Black => out.push(String::from_str("40")),
        Color::Red => out.push(String::from_str("41")),
        Color::Green => out.push(String::from_str("42")),
        Color::Yellow => out.push(String::from_str("43")),
        Color::Blue => out.push(String::from_str("44")),
        Color::Purple => out.push(String::from_str("45")),
        Color::Cyan => out.push(String::from_str("46")),
        Color::White => out.push(String::from_str("47")),
        Color::DarkGray => out.push(String::from_str("100")),
        Color::LightRed => out.push(String::from_str("101")),
        Color::LightGreen => out.push(String::from_str("102")),
        Color::LightYellow => out.push(String::from_str("103")),
        Color::LightBlue => out.push(String::from_str("104")),
        Color::LightPurple => out.push(String::from_str("105")),
        Color::LightCyan => out.push(String::from_str("106")),
        Color::LightGray => out.push(String::from_str("107")),
        Color::Default => out.push(String::from_str("49")),
        Color::Fixed(n) => {
            out.push(String::from_str("48"));
            out.push(String::from_str("5"));
            out.push(u8_string(n));
        },
        Color::Rgb(r, g, b) => {
            out.push(String::from_str("48"));
            out.push(String::from_str("2"));
            out.push(u8_string(r));
            out.push(u8_string(g));
            out.push(u8_string(b));
        },
    }
}

/// The numeric code strings of a style, in emission order.
#[verifier::rlimit(50)]
pub fn style_codes(s: &Style, legacy_underline: bool) -> (out: Vec<String>)
    ensures
        views_of(out@) =~= spec_style_codes(*s, legacy_underline),
{
    let mut out: Vec<String> = Vec::new();
    assert(views_of(out@) =~= flag_codes_upto(s.formats, legacy_underline, 0));
    if s.formats.bold {
        out.push(String::from_str("1"));
    }
    assert(views_of(out@) =~= flag_codes_upto(s.formats, legacy_underline, 1));
    if s.formats.dimmed {
        out.push(String::from_str("2"));
    }
    assert(views_of(out@) =~= flag_codes_upto(s.formats, legacy_underline, 2));
    if s.formats.italic {
        out.push(String::from_str("3"));
    }
    assert(views_of(out@) =~= flag_codes_upto(s.formats, legacy_underline, 3));
    if s.formats.underline {
        if legacy_underline {
            out.push(String::from_str("04"));
        } else {
            out.push(String::from_str("4"));
        }
    }
    assert(views_of(out@) =~= flag_codes_upto(s.formats, legacy_underline, 4));
    if s.formats.blink {
        out.push(String::from_str("5"));
    }
    assert(views_of(out@) =~= flag_codes_upto(s.formats, legacy_underline, 5));
    if s.formats.reverse {
        out.push(String::from_str("7"));
    }
    assert(views_of(out@) =~= flag_codes_upto(s.formats, legacy_underline, 6));
    if s.formats.hidden {
        out.push(String::from_str("8"));
    }
    assert(views_of(out@) =~= flag_codes_upto(s.formats, legacy_underline, 7));
    if s.formats.strikethrough {
        out.push(String::from_str("9"));
    }
    assert(views_of(out@) =~= spec_flag_codes(s.formats, legacy_underline));
    match s.coloring.fg {
        Option::Some(c) => push_fg_codes(&mut out, c),
        Option::None => (),
    }
    match s.coloring.bg {
        Option::Some(c) => push_bg_codes(&mut out, c),
        Option::None => (),
    }
    out
}

/// The parts joined with `sep` between neighbours.
pub fn join_parts(parts: &Vec<String>, sep: &str) -> (out: String)
    ensures
        out@ == spec_join(views_of(parts@), sep@),
{
    let mut out = String::new();
    let mut i: usize = 0;
    while i < parts.len()
        invariant
            i <= parts.len(),
            out@ == spec_join(views_of(parts@.take(i as int)), sep@),
        decreases parts.len() - i,
    {
        if i > 0 {
            out.append(sep);
        }
        out.append(parts[i].as_str());
        proof {
            let taken = views_of(parts@.take(i as int));
            lemma_join_push(taken, sep@, parts@[i as int]@);
            assert(views_of(parts@.take(i + 1)) =~= taken.push(parts@[i as int]@));
        }
        i = i + 1;
    }
    proof {
        assert(parts@.take(parts@.len() as int) =~= parts@);
    }
    out
}

impl Style {
    /// The SGR prefix of this style under the given underline option: empty
    /// for a plain look, preceded by a full reset when the style carries the
    /// `reset_prefix` marker.
    pub fn prefix_with(&self, legacy_underline: bool) -> (out: String)
        ensures
            out@ == spec_prefix(*self, legacy_underline),
    {
        let mut out = String::new();
        if self.reset_prefix {
            out.append(RESET);
        }
        if !self.has_no_styling() {
            out.append("\x1B[");
            let codes = style_codes(self, legacy_underline);
            let params = join_parts(&codes, ";");
            out.append(params.as_str());
            out.append("m");
        }
        out
    }

    /// The SGR prefix of this style, in the standard underline form.
    pub fn prefix(&self) -> (out: String)
        ensures
            out@ == spec_prefix(*self, false),
    {
        self.prefix_with(false)
    }

    /// The suffix of this style: empty for a plain look, the full reset
    /// otherwise.
    pub fn suffix(&self) -> (out: String)
        ensures
            out@ == spec_suffix(*self),
    {
        if self.has_no_styling() {
            String::new()
        } else {
            String::from_str(RESET)
        }
    }
}

} // verus!
