//! The state of a web preview pane (address bar and embedded webview) and its
//! decisions: what happens to the webview when the pane is detached or
//! attached, navigation, and the URL shown after the page moved on.

use vstd::prelude::*;

use crate::text::{from_chars, slice_range, to_chars, chars_eq};
use crate::webview::BrowserWebViewEvent;

verus! {

/// The state of one pane: its URL and the platform-view id of its webview.
#[derive(Debug, Clone)]
pub struct BrowserPaneModel {
    pub url: String,
    pub platform_view_id: u64,
}

/// Events of a browser pane: pane events passed on to the pane group.
#[derive(Debug, Clone)]
pub enum BrowserPaneEvent<PaneEvent> {
    Pane(PaneEvent),
}

/// Actions of a browser pane.
#[derive(Debug, Clone)]
pub enum BrowserPaneAction {
    Navigate(String),
    GoBack,
    GoForward,
    Reload,
    Focus,
    Close,
}

/// Why a pane leaves its pane group.
#[derive(Debug, Clone, Copy, PartialEq, Eq, Structural)]
pub enum DetachType {
    /// Closed for good.
    Closed,
    /// Hidden during the grace period in which a close can be undone.
    HiddenForClose,
    /// Moved to another window.
    Moved,
}

/// What the pane does to its webview.
#[derive(Debug, Clone, Copy, PartialEq, Eq, Structural)]
pub enum WebviewCommand {
    /// Destroy it.
    Destroy,
    /// Hide it (it may come back).
    Hide,
    /// Create it anew (in the pane's current window) and register the
    /// platform-view handler.
    Recreate,
    /// Show it again.
    Show,
}

/// A browser pane's state.
pub struct BrowserPaneState {
    pub model: BrowserPaneModel,
    /// The webview was destroyed by a move and must be recreated on attach.
    pub needs_recreate: bool,
}

/// What the pane does when a webview event arrives.
#[derive(Debug, Clone, Copy, PartialEq, Eq, Structural)]
pub enum PaneEventResponse {
    /// Take focus (the page took it; the address bar lets go).
    FocusSelf,
    /// Read the webview's URL back ([`BrowserPaneState::sync_url_from_webview`]).
    SyncUrl,
    /// The event is for another pane, or needs nothing.
    Nothing,
}

/// `s` without its trailing `c`s (`str::trim_end_matches`).
pub open spec fn trim_end_char(s: Seq<char>, c: char) -> Seq<char>
    decreases s.len(),
{
    if s.len() > 0 && s.last() == c {
        trim_end_char(s.drop_last(), c)
    } else {
        s
    }
}

impl BrowserPaneState {
    /// A pane showing `url` in the webview `platform_view_id`.
    pub fn new(url: String, platform_view_id: u64) -> (r: BrowserPaneState)
        ensures
            r.model.url == url,
            r.model.platform_view_id == platform_view_id,
            !r.needs_recreate,
    {
        BrowserPaneState { model: BrowserPaneModel { url, platform_view_id }, needs_recreate: false }
    }

    /// The webview command for a detach: a close destroys, the undo grace
    /// period hides, a move destroys and asks for a recreation on attach.
    pub fn handle_detach(&mut self, detach_type: DetachType) -> (r: WebviewCommand)
        ensures
            r == (match detach_type {
                DetachType::Closed => WebviewCommand::Destroy,
                DetachType::HiddenForClose => WebviewCommand::Hide,
                DetachType::Moved => WebviewCommand::Destroy,
            }),
            final(self).needs_recreate == (old(self).needs_recreate || detach_type
                == DetachType::Moved),
            final(self).model == old(self).model,
    {
        match detach_type {
            DetachType::Closed => WebviewCommand::Destroy,
            DetachType::HiddenForClose => WebviewCommand::Hide,
            DetachType::Moved => {
                self.needs_recreate = true;
                WebviewCommand::Destroy
            },
        }
    }

    /// The webview command for an attach: recreate after a move or when the
    /// webview is gone (a window close cleaned it up), else show it again.
    pub fn handle_attach(&mut self, webview_exists: bool) -> (r: WebviewCommand)
        ensures
            r == (if old(self).needs_recreate || !webview_exists {
                WebviewCommand::Recreate
            } else {
                WebviewCommand::Show
            }),
            !final(self).needs_recreate || r == WebviewCommand::Show,
            final(self).needs_recreate == (old(self).needs_recreate && r == WebviewCommand::Show),
            final(self).model == old(self).model,
    {
        if self.needs_recreate || !webview_exists {
            self.needs_recreate = false;
            WebviewCommand::Recreate
        } else {
            WebviewCommand::Show
        }
    }

    /// Navigates to `url`: it becomes the pane's URL (and title).
    pub fn navigate(&mut self, url: String)
        ensures
            final(self).model.url == url,
            final(self).model.platform_view_id == old(self).model.platform_view_id,
            final(self).needs_recreate == old(self).needs_recreate,
    {
        self.model.url = url;
    }

    /// Takes the webview's main-frame URL, without trailing slashes, as the
    /// pane's URL when it differs; returns the new URL to show.
    pub fn sync_url_from_webview(&mut self, webview_url: Option<String>) -> (r: Option<String>)
        ensures
            match webview_url {
                None => r is None && final(self).model.url == old(self).model.url,
                Some(u) => {
                    let t = trim_end_char(u@, '/');
                    if t == old(self).model.url@ {
                        r is None && final(self).model.url == old(self).model.url
                    } else {
                        r matches Some(n) && n@ == t && final(self).model.url@ == t
                    }
                },
            },
            final(self).model.platform_view_id == old(self).model.platform_view_id,
            final(self).needs_recreate == old(self).needs_recreate,
    {
        match webview_url {
            None => None,
            Some(u) => {
                let cs = to_chars(u.as_str());
                let mut n = cs.len();
                proof {
                    assert(cs@.take(n as int) =~= cs@);
                }
                while n > 0 && cs[n - 1] == '/'
                    invariant
                        n <= cs@.len(),
                        trim_end_char(cs@, '/') == trim_end_char(cs@.take(n as int), '/'),
                    decreases n,
                {
                    proof {
                        assert(cs@.take(n as int).drop_last() =~= cs@.take(n - 1));
                    }
                    n -= 1;
                }
                let t = slice_range(&cs, 0, n);
                proof {
                    assert(t@ =~= cs@.take(n as int));
                    if n == cs@.len() {
                        assert(cs@.take(n as int) =~= cs@);
                    }
                }
                if chars_eq(&t, &to_chars(self.model.url.as_str())) {
                    None
                } else {
                    let url = from_chars(&t);
                    self.model.url = from_chars(&t);
                    Some(url)
                }
            },
        }
    }

    /// The pane's response to a webview event: only events of its own webview
    /// count.
    pub fn handle_webview_event(&self, event: BrowserWebViewEvent) -> (r: PaneEventResponse)
        ensures
            r == (match event {
                BrowserWebViewEvent::PageFocused(id) => if id == self.model.platform_view_id {
                    PaneEventResponse::FocusSelf
                } else {
                    PaneEventResponse::Nothing
                },
                BrowserWebViewEvent::UrlChanged(id) => if id == self.model.platform_view_id {
                    PaneEventResponse::SyncUrl
                } else {
                    PaneEventResponse::Nothing
                },
                BrowserWebViewEvent::WebContentCrashed(_) => PaneEventResponse::Nothing,
            }),
    {
        match event {
            BrowserWebViewEvent::PageFocused(id) => if id == self.model.platform_view_id {
                PaneEventResponse::FocusSelf
            } else {
                PaneEventResponse::Nothing
            },
            BrowserWebViewEvent::UrlChanged(id) => if id == self.model.platform_view_id {
                PaneEventResponse::SyncUrl
            } else {
                PaneEventResponse::Nothing
            },
            BrowserWebViewEvent::WebContentCrashed(_) => PaneEventResponse::Nothing,
        }
    }
}

} // verus!
