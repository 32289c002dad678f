//! How code review shows a diff.

use vstd::prelude::*;

verus! {

/// Diff layout of code review (kept in memory, not in the settings).
#[derive(Debug, Clone, Copy, PartialEq, Eq, Structural)]
pub enum DiffLayout {
    Inline,
    SideBySide,
}

impl Default for DiffLayout {
    fn default() -> (r: DiffLayout)
        ensures
            r == DiffLayout::Inline,
    {
        DiffLayout::Inline
    }
}

impl DiffLayout {
    /// The label of the layout switch.
    pub fn label(self) -> (r: &'static str)
        ensures
            r@ == (match self {
                DiffLayout::Inline => "Inline"@,
                DiffLayout::SideBySide => "Side by side"@,
            }),
    {
        match self {
            DiffLayout::Inline => "Inline",
            DiffLayout::SideBySide => "Side by side",
        }
    }

    /// Whether the old and new sides are shown next to each other.
    pub fn is_side_by_side(self) -> (r: bool)
        ensures
            r == (self == DiffLayout::SideBySide),
    {
        match self {
            DiffLayout::SideBySide => true,
            DiffLayout::Inline => false,
        }
    }
}

} // verus!
