//! The delta engine: the minimal transition between two consecutive styles.

use crate::style::Style;
use vstd::prelude::*;

verus! {

/// The decision of what style change must be emitted before a fragment:
/// nothing at all, or a full style to (re)apply.
///
/// Attribute-level patches are never produced: whenever any attribute or
/// color differs, the whole next style is carried, because codes that clear
/// a single attribute are unreliable across terminal emulators.
#[derive(Clone, Copy, PartialEq, Eq, Structural, Debug)]
pub enum StyleDelta {
    /// No code is needed; the next fragment inherits the terminal's current
    /// rendering state.
    Empty,
    /// The full style to emit before the next fragment.
    ExtraStyles(Style),
}

impl Style {
    /// The transition from `self` (the style in effect) to `next`: `Empty`
    /// when the two look the same, otherwise the full `next` style, with its
    /// reset marker set exactly when `next` does not cover everything `self`
    /// had established.
    pub open spec fn spec_compute_delta(self, next: Style) -> StyleDelta {
        if self.same_look(next) {
            StyleDelta::Empty
        } else {
            StyleDelta::ExtraStyles(next.with_reset(!next.covers(self)))
        }
    }

    /// Compute the minimal transition from `self` to `next`.
    pub fn compute_delta(&self, next: Style) -> (r: StyleDelta)
        ensures
            r == self.spec_compute_delta(next),
    {
        if self.looks_like(&next) {
            StyleDelta::Empty
        } else {
            let needs_reset: bool = !(self.formats.subset_of_exec(&next.formats)
                && (self.coloring.fg.is_none() || next.coloring.fg.is_some())
                && (self.coloring.bg.is_none() || next.coloring.bg.is_some()));
            StyleDelta::ExtraStyles(next.with_reset(needs_reset))
        }
    }
}

impl Default for StyleDelta {
    /// The empty transition.
    fn default() -> (r: StyleDelta)
        ensures
            r == StyleDelta::Empty,
    {
        StyleDelta::Empty
    }
}

} // verus!
