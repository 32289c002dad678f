//! Selection and clipboard settings of the terminal, and the clipboard
//! decisions they make.

use vstd::prelude::*;

verus! {

/// What a bare right-click does in the terminal.
#[derive(Debug, Clone, Copy, PartialEq, Eq, Structural)]
pub enum RightClickBehavior {
    /// Open the context menu (the default).
    ContextMenu,
    /// Paste from the clipboard; Shift+right-click still opens the menu.
    Paste,
}

impl Default for RightClickBehavior {
    fn default() -> (r: RightClickBehavior)
        ensures
            r == RightClickBehavior::ContextMenu,
    {
        RightClickBehavior::ContextMenu
    }
}

impl RightClickBehavior {
    /// The dropdown label, as its message id in the interface's catalog; the
    /// caller looks the text up in the interface language.
    pub fn as_dropdown_label(&self) -> (r: &'static str)
        ensures
            r@ == (match *self {
                RightClickBehavior::ContextMenu => "settings-features-right-click-behavior-context-menu"@,
                RightClickBehavior::Paste => "settings-features-right-click-behavior-paste"@,
            }),
    {
        match self {
            RightClickBehavior::ContextMenu => "settings-features-right-click-behavior-context-menu",
            RightClickBehavior::Paste => "settings-features-right-click-behavior-paste",
        }
    }
}

/// The selection settings, with whether the platform supports each
/// platform-bound setting.
#[derive(Debug, Clone, Copy)]
pub struct SelectionSettings {
    /// Copy selected text to the clipboard (default on).
    pub copy_on_select: bool,
    /// Use the Linux primary selection (default on; Linux only).
    pub linux_selection_clipboard: bool,
    pub linux_selection_clipboard_supported: bool,
    /// Middle-click pastes from the clipboard (default on; Windows and macOS).
    pub middle_click_paste_enabled: bool,
    pub middle_click_paste_supported: bool,
    pub right_click_behavior: RightClickBehavior,
}

/// Where a middle-click paste reads from.
#[derive(Debug, Clone, Copy, PartialEq, Eq, Structural)]
pub enum MiddleClickSource {
    /// Linux's primary selection.
    PrimarySelection,
    /// The ordinary clipboard (pasted only when not empty).
    Clipboard,
    /// Nothing is pasted.
    Nothing,
}

/// Where a selection is written.
#[derive(Debug, Clone, Copy, PartialEq, Eq, Structural)]
pub struct CopyOnSelectPlan {
    pub write_primary_selection: bool,
    pub write_clipboard: bool,
}

impl SelectionSettings {
    /// The defaults, with the platform support given.
    pub fn defaults(linux_supported: bool, middle_click_supported: bool) -> (r: SelectionSettings)
        ensures
            r.copy_on_select,
            r.linux_selection_clipboard,
            r.middle_click_paste_enabled,
            r.right_click_behavior == RightClickBehavior::ContextMenu,
            r.linux_selection_clipboard_supported == linux_supported,
            r.middle_click_paste_supported == middle_click_supported,
    {
        SelectionSettings {
            copy_on_select: true,
            linux_selection_clipboard: true,
            linux_selection_clipboard_supported: linux_supported,
            middle_click_paste_enabled: true,
            middle_click_paste_supported: middle_click_supported,
            right_click_behavior: RightClickBehavior::ContextMenu,
        }
    }

    pub fn copy_on_select_enabled(&self) -> (r: bool)
        ensures
            r == self.copy_on_select,
    {
        self.copy_on_select
    }

    /// Whether a bare right-click pastes (else it opens the context menu).
    pub fn right_click_pastes(&self) -> (r: bool)
        ensures
            r == (self.right_click_behavior == RightClickBehavior::Paste),
    {
        match self.right_click_behavior {
            RightClickBehavior::Paste => true,
            RightClickBehavior::ContextMenu => false,
        }
    }

    /// Whether the Linux primary selection is used: switched on and
    /// supported (never off Linux).
    pub fn linux_selection_clipboard_enabled(&self) -> (r: bool)
        ensures
            r == (self.linux_selection_clipboard && self.linux_selection_clipboard_supported),
    {
        self.linux_selection_clipboard && self.linux_selection_clipboard_supported
    }

    /// Where a selection of `plain_text_empty` text goes: the primary
    /// selection when it is used, the clipboard with copy-on-select; empty
    /// text goes nowhere.
    pub fn copy_on_select_plan(&self, plain_text_empty: bool) -> (r: CopyOnSelectPlan)
        ensures
            r.write_primary_selection == (self.linux_selection_clipboard
                && self.linux_selection_clipboard_supported && !plain_text_empty),
            r.write_clipboard == (self.copy_on_select && !plain_text_empty),
    {
        CopyOnSelectPlan {
            write_primary_selection: self.linux_selection_clipboard_enabled() && !plain_text_empty,
            write_clipboard: self.copy_on_select_enabled() && !plain_text_empty,
        }
    }

    /// The source of a middle-click paste: on Linux the primary selection
    /// (when used); elsewhere the clipboard when middle-click paste is
    /// supported and on.
    pub fn middle_click_source(&self, is_linux: bool) -> (r: MiddleClickSource)
        ensures
            r == (if is_linux {
                if self.linux_selection_clipboard && self.linux_selection_clipboard_supported {
                    MiddleClickSource::PrimarySelection
                } else {
                    MiddleClickSource::Nothing
                }
            } else if self.middle_click_paste_supported && self.middle_click_paste_enabled {
                MiddleClickSource::Clipboard
            } else {
                MiddleClickSource::Nothing
            }),
    {
        if is_linux {
            if self.linux_selection_clipboard_enabled() {
                MiddleClickSource::PrimarySelection
            } else {
                MiddleClickSource::Nothing
            }
        } else if self.middle_click_paste_supported && self.middle_click_paste_enabled {
            MiddleClickSource::Clipboard
        } else {
            MiddleClickSource::Nothing
        }
    }
}

} // verus!
