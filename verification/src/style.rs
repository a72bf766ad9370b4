//! How a piece of the interface is drawn.

use crate::merge::{or_else, overlay_or, Mergeable};
use vstd::prelude::*;

verus! {

/// `tui::style::Color`, a colour of the terminal. Nothing is claimed of it:
/// the library carries colours through and never looks inside one.
#[verifier::external_type_specification]
#[verifier::external_body]
pub struct ExColor(tui::style::Color);

/// `tui::style::Modifier`, a set of text modifiers such as bold or italic.
/// Nothing is claimed of it: the library carries modifiers through and never
/// looks inside one.
#[verifier::external_type_specification]
#[verifier::external_body]
pub struct ExModifier(tui::style::Modifier);

/// Colours and text modifiers; each may be left open.
#[derive(Debug, Clone, Copy, PartialEq, Default)]
pub struct Style {
    pub fg: Option<tui::style::Color>,
    pub bg: Option<tui::style::Color>,
    pub add_modifier: Option<tui::style::Modifier>,
    pub sub_modifier: Option<tui::style::Modifier>,
}

impl View for Style {
    type V = Style;

    open spec fn view(&self) -> Style {
        *self
    }
}

impl Style {
    /// Lays `other` onto this style: each setting that `other` makes wins, the
    /// others are kept.
    pub fn extend(self, other: Self) -> (r: Self)
        ensures
            r == Self::merged(self, other),
    {
        Style {
            fg: overlay_or(other.fg, self.fg),
            bg: overlay_or(other.bg, self.bg),
            add_modifier: overlay_or(other.add_modifier, self.add_modifier),
            sub_modifier: overlay_or(other.sub_modifier, self.sub_modifier),
        }
    }
}

impl Mergeable for Style {
    open spec fn merged(base: Style, overlay: Style) -> Style {
        Style {
            fg: or_else(overlay.fg, base.fg),
            bg: or_else(overlay.bg, base.bg),
            add_modifier: or_else(overlay.add_modifier, base.add_modifier),
            sub_modifier: or_else(overlay.sub_modifier, base.sub_modifier),
        }
    }

    proof fn lemma_merged_same(v: Style) {
    }

    fn merge(self, overlay: Self) -> (r: Self) {
        self.extend(overlay)
    }
}

} // verus!
