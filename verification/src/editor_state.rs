//! The load state of one code review editor: whether its buffer has been
//! loaded, and the error when loading failed.

use vstd::prelude::*;

verus! {

/// A code review editor and its load state. `Editor` is the handle of the
/// editor view and `LoadError` the error of a failed load.
pub struct CodeReviewEditorState<Editor, LoadError> {
    editor: Editor,
    is_loaded: bool,
    load_error: Option<LoadError>,
}

impl<Editor, LoadError> CodeReviewEditorState<Editor, LoadError> {
    /// The editor view it holds.
    pub closed spec fn view_handle(&self) -> Editor {
        self.editor
    }

    /// Whether the buffer content has been loaded (or failed to load).
    pub closed spec fn loaded(&self) -> bool {
        self.is_loaded
    }

    /// The error of a failed load.
    pub closed spec fn error(&self) -> Option<LoadError> {
        self.load_error
    }

    /// An editor whose buffer is still loading.
    pub fn new(editor: Editor) -> (r: Self)
        ensures
            r.view_handle() == editor,
            !r.loaded(),
            r.error() is None,
    {
        CodeReviewEditorState { editor, is_loaded: false, load_error: None }
    }

    /// An editor whose content was loaded at once.
    pub fn new_loaded(editor: Editor) -> (r: Self)
        ensures
            r.view_handle() == editor,
            r.loaded(),
            r.error() is None,
    {
        CodeReviewEditorState { editor, is_loaded: true, load_error: None }
    }

    /// Whether the buffer content has been loaded.
    pub fn is_loaded(&self) -> (r: bool)
        ensures
            r == self.loaded(),
    {
        self.is_loaded
    }

    /// Marks the buffer as loaded; a recorded error stays.
    pub fn set_loaded(&mut self)
        ensures
            final(self).loaded(),
            final(self).error() == old(self).error(),
            final(self).view_handle() == old(self).view_handle(),
    {
        self.is_loaded = true;
    }

    /// Records the outcome of a load: loaded, with the error if it failed.
    pub fn set_load_result(&mut self, error: Option<LoadError>)
        ensures
            final(self).loaded(),
            final(self).error() == error,
            final(self).view_handle() == old(self).view_handle(),
    {
        self.is_loaded = true;
        self.load_error = error;
    }

    /// The error of a failed load, if any.
    pub fn load_error(&self) -> (r: Option<&LoadError>)
        ensures
            match self.error() {
                Some(e) => r == Some(&e),
                None => r is None,
            },
    {
        match &self.load_error {
            Some(e) => Some(e),
            None => None,
        }
    }

    /// The editor view.
    pub fn editor(&self) -> (r: &Editor)
        ensures
            *r == self.view_handle(),
    {
        &self.editor
    }
}

} // verus!
