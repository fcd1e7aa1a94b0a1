//! Styling of terminal text with ANSI escape codes.
//!
//! A [`Style`] holds formatting attributes (bold, underline, ...) and an
//! optional foreground and background [`Color`]. Painting some content
//! with a style yields a styled fragment; a sequence of those renders with a
//! minimal set of escape codes: a style prefix is only emitted where the
//! style actually changes from one fragment to the next, and the trailing
//! reset is suppressed when the last emitted style was plain.

pub mod ansi;
pub mod debug;
pub mod difference;
pub mod display;
pub mod gradient;
pub mod laws;
pub mod style;

pub use ansi::RESET;
pub use debug::{BgColor, DebugDiff, DebugStylePaint, FgColor};
pub use difference::StyleDelta;
pub use display::{
    AnsiByteString, AnsiByteStrings, AnsiGenericString, AnsiGenericStrings, AnsiString,
    AnsiStrings, Content, ContentIter, OSControl, StyleIter, StyleUpdate, WriteIter,
};
pub use gradient::{
    build_all_gradient_text, build_gradient_text, ANSIColorCode, Gradient, Rgb, TargetGround,
};
pub use style::{Color, Coloring, FormatFlags, Style};
