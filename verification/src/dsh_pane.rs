//! The state of the dsh pane: loading, the webview of a ready runtime, and the
//! overlays for a failed runtime and a crashed page; and its decisions on
//! runtime and webview events, attach and detach.
//!
//! Times are milliseconds on a monotonic clock chosen by the caller.

use vstd::prelude::*;

use crate::bridge::BridgeEvent;
use crate::browser_pane::DetachType;
use crate::runtime::{DshRuntime, DshRuntimeStatus};
use crate::text::{
    chars_eq, find_char, find_char_exec, find_sub, find_sub_exec, from_chars, is_first_match,
    lemma_find_sub_is, lemma_find_sub_none, lemma_matches_single, matches_at, slice_range, to_chars,
};
use crate::webview::BrowserWebViewEvent;

verus! {

/// A ready webview is shown at the latest this long after it started loading,
/// even if no load event came.
pub const WEBVIEW_LOAD_TIMEOUT_MS: u64 = 15000;

/// The loading ellipsis grows one dot this often.
pub const ELLIPSIS_INTERVAL_MS: u64 = 300;

/// Actions of the dsh pane.
#[derive(Debug, Clone, Copy, PartialEq, Eq, Structural)]
pub enum DshPaneAction {
    /// Reload the crashed webview (the runtime is healthy; only the page is
    /// rebuilt).
    ReloadWebview,
}

/// What the pane shows.
#[derive(Debug, Clone, Copy, PartialEq, Eq, Structural)]
pub enum PaneDisplay {
    /// The runtime failed or stopped: an error and a restart button.
    RuntimeFailed,
    /// The page's renderer died: a note and a reload button.
    WebviewCrashed,
    /// The webview.
    Webview,
    /// The animated loading text.
    Loading,
}

/// The state of the dsh pane.
pub struct DshPaneState {
    /// Whether the runtime was ready and the webview created.
    pub ready: bool,
    pub current_url: String,
    /// The page finished loading.
    pub webview_loaded: bool,
    pub load_started_at: Option<u64>,
    pub webview_id: Option<u64>,
    pub runtime_failed: bool,
    pub webview_crashed: bool,
}

/// `scheme://host:port` of a URL: the text up to the first `/` after `://`;
/// a URL without `://` is its own origin. dsh's redirect only drops the token
/// query and every runtime instance has its own port, so the same origin
/// means the same instance.
pub open spec fn url_origin_spec(url: Seq<char>) -> Seq<char> {
    match find_sub(url, "://"@) {
        Some(i) => {
            let after = i + 3;
            match find_char(url.skip(after), '/') {
                Some(j) => url.take(after + j),
                None => url,
            }
        },
        None => url,
    }
}

/// The origin of `url`, as [`url_origin_spec`] says.
pub fn url_origin(url: &str) -> (r: String)
    ensures
        r@ == url_origin_spec(url@),
{
    let cs = to_chars(url);
    let n = cs.len();
    let sep = to_chars("://");
    proof {
        reveal_strlit("://");
    }
    match find_sub_exec(&cs, &sep) {
        Some(i) => {
            proof {
                lemma_find_sub_none(cs@, sep@);
                assert(i + 3 <= n);
            }
            let after = i + 3;
            let rest = slice_range(&cs, after, n);
            proof {
                assert(rest@ =~= cs@.skip(after as int));
            }
            match find_char_exec(&rest, '/') {
                Some(j) => {
                    let o = slice_range(&cs, 0, after + j);
                    proof {
                        assert(o@ =~= cs@.take(after + j));
                    }
                    from_chars(&o)
                },
                None => from_chars(&cs),
            }
        },
        None => from_chars(&cs),
    }
}

/// The origin of an origin is the origin itself, so that comparing origins
/// compares the same thing whichever of two URLs of one instance is at hand.
pub proof fn law_url_origin_idempotent(url: Seq<char>)
    ensures
        url_origin_spec(url_origin_spec(url)) == url_origin_spec(url),
{
    let sep = "://"@;
    assert(sep.len() == 3) by {
        reveal_strlit("://");
    }
    lemma_find_sub_none(url, sep);
    if let Some(i) = find_sub(url, sep) {
        let after = i + 3;
        let rest = url.skip(after);
        let slash = seq!['/'];
        lemma_find_sub_none(rest, slash);
        if let Some(j) = find_char(rest, '/') {
            let o = url.take(after + j);
            assert(o.subrange(i, i + 3) =~= url.subrange(i, i + 3));
            assert forall|k: int| 0 <= k < i implies !matches_at(o, sep, k) by {
                if matches_at(o, sep, k) {
                    assert(o.subrange(k, k + 3) =~= url.subrange(k, k + 3));
                    assert(matches_at(url, sep, k));
                }
            }
            assert(is_first_match(o, sep, i));
            lemma_find_sub_is(o, sep, i);
            let orest = o.skip(after);
            assert(orest =~= rest.take(j));
            assert forall|k: int| !matches_at(orest, slash, k) by {
                lemma_matches_single(orest, '/', k);
                lemma_matches_single(rest, '/', k);
                if 0 <= k < orest.len() && orest[k] == '/' {
                    assert(rest[k] == '/');
                    assert(matches_at(rest, slash, k));
                }
            }
            lemma_find_sub_none(orest, slash);
            assert(o.take(after + j) =~= o);
        }
    }
}

/// The dots of the loading text `elapsed_ms` after it started: `.`, `..`,
/// `...`, round and round.
pub fn ellipsis_dots(elapsed_ms: u64) -> (r: &'static str)
    ensures
        r@ == (if (elapsed_ms / ELLIPSIS_INTERVAL_MS) % 3 == 0 {
            "."@
        } else if (elapsed_ms / ELLIPSIS_INTERVAL_MS) % 3 == 1 {
            ".."@
        } else {
            "..."@
        }),
{
    let frame = (elapsed_ms / ELLIPSIS_INTERVAL_MS) % 3;
    if frame == 0 {
        "."
    } else if frame == 1 {
        ".."
    } else {
        "..."
    }
}

/// How the runtime URL meets the pane.
#[derive(Debug, Clone, Copy, PartialEq, Eq, Structural)]
pub enum RuntimeUrlSync {
    /// The webview already shows this runtime instance.
    Keep,
    /// The webview shows another instance: navigate it to the runtime URL.
    Navigate,
    /// No webview yet: become ready with the runtime URL.
    SetReady,
}

/// What a detach of the dsh pane asks of the runtime.
#[derive(Debug, Clone, Copy, PartialEq, Eq, Structural)]
pub enum PaneDetachEffect {
    /// The pane was closed: arm a pending stop
    /// ([`DshRuntime::mark_stop_pending`](crate::runtime::DshRuntime::mark_stop_pending)),
    /// then judge it with whether a dsh pane is still reachable.
    ArmPendingStop,
    /// The pane is hidden while its close can be undone: the runtime stays.
    Nothing,
    /// The pane moved: its webview is rebuilt and the load clock restarted.
    RestartLoadClock,
}

/// The runtime side of a dsh pane's detach: a close only arms the pending
/// stop, which the per-frame
/// [`DshRuntime::poll_pending_stop`](crate::runtime::DshRuntime::poll_pending_stop)
/// judges once the detached pane can no longer be miscounted; a hide or a
/// move leaves the runtime as it is.
pub fn apply_detach_effect(runtime: &mut DshRuntime, effect: PaneDetachEffect)
    ensures
        effect == PaneDetachEffect::ArmPendingStop ==> *final(runtime) == (DshRuntime {
            stop_pending: true,
            ..*old(runtime)
        }),
        effect != PaneDetachEffect::ArmPendingStop ==> *final(runtime) == *old(runtime),
{
    if effect == PaneDetachEffect::ArmPendingStop {
        runtime.mark_stop_pending();
    }
}

/// How the pane's webview is attached.
#[derive(Debug, Clone, Copy, PartialEq, Eq, Structural)]
pub struct AttachPlan {
    /// Sync the pane with the runtime URL first.
    pub sync_url: bool,
    /// Attach the webview without taking focus.
    pub force_without_focus: bool,
    /// Show the runtime-failed overlay.
    pub enter_failed: bool,
}

/// Whether the ready webview is shown at `now`: loaded, or loading for longer
/// than the timeout.
pub open spec fn show_webview(s: DshPaneState, now: u64) -> bool {
    s.ready && (s.webview_loaded || (s.load_started_at matches Some(t) && now - t
        > WEBVIEW_LOAD_TIMEOUT_MS))
}

impl DshPaneState {
    /// A loading pane.
    pub fn new() -> (r: DshPaneState)
        ensures
            !r.ready,
            r.current_url@ == Seq::<char>::empty(),
            !r.webview_loaded,
            r.load_started_at is None,
            r.webview_id is None,
            !r.runtime_failed,
            !r.webview_crashed,
    {
        DshPaneState {
            ready: false,
            current_url: String::new(),
            webview_loaded: false,
            load_started_at: None,
            webview_id: None,
            runtime_failed: false,
            webview_crashed: false,
        }
    }

    /// Whether the pane still waits for the runtime.
    pub fn is_loading(&self) -> (r: bool)
        ensures
            r == !self.ready,
    {
        !self.ready
    }

    /// What the pane shows at `now`: a failed runtime first, then a crashed
    /// page, then the webview once it may be shown, else the loading text.
    pub fn display(&self, now: u64) -> (r: PaneDisplay)
        ensures
            r == (if self.runtime_failed {
                PaneDisplay::RuntimeFailed
            } else if self.webview_crashed {
                PaneDisplay::WebviewCrashed
            } else if show_webview(*self, now) {
                PaneDisplay::Webview
            } else {
                PaneDisplay::Loading
            }),
    {
        if self.runtime_failed {
            return PaneDisplay::RuntimeFailed;
        }
        if self.webview_crashed {
            return PaneDisplay::WebviewCrashed;
        }
        let timed_out = match self.load_started_at {
            Some(t) => now > t && now - t > WEBVIEW_LOAD_TIMEOUT_MS,
            None => false,
        };
        if self.ready && (self.webview_loaded || timed_out) {
            PaneDisplay::Webview
        } else {
            PaneDisplay::Loading
        }
    }

    /// The runtime became ready at `url` and the webview `webview_id` was
    /// created at `now`. A pane that is ready already stays as it is (no second
    /// webview); the result says whether the pane took the new webview.
    pub fn set_ready(&mut self, url: &str, webview_id: u64, now: u64) -> (r: bool)
        ensures
            r == !old(self).ready,
            !r ==> *final(self) == *old(self),
            r ==> final(self).ready && final(self).current_url@ == url@ && final(self).webview_id
                == Some(webview_id) && final(self).load_started_at == Some(now)
                && !final(self).webview_loaded && final(self).runtime_failed
                == old(self).runtime_failed && final(self).webview_crashed
                == old(self).webview_crashed,
    {
        if self.ready {
            return false;
        }
        self.current_url = from_chars(&to_chars(url));
        self.webview_id = Some(webview_id);
        self.load_started_at = Some(now);
        self.webview_loaded = false;
        self.ready = true;
        true
    }

    /// A runtime event: a failure shows the error overlay, a (re)start clears
    /// it; the other events do not concern the pane.
    pub fn on_runtime_event(&mut self, event: &BridgeEvent)
        ensures
            final(self).runtime_failed == (match event {
                BridgeEvent::Failed { .. } => true,
                BridgeEvent::Ready { .. } | BridgeEvent::Restarted { .. } => false,
                _ => old(self).runtime_failed,
            }),
            final(self).ready == old(self).ready,
            final(self).webview_crashed == old(self).webview_crashed,
            final(self).webview_loaded == old(self).webview_loaded,
            final(self).webview_id == old(self).webview_id,
            final(self).load_started_at == old(self).load_started_at,
            final(self).current_url == old(self).current_url,
    {
        match event {
            BridgeEvent::Failed { .. } => {
                self.runtime_failed = true;
            },
            BridgeEvent::Ready { .. } | BridgeEvent::Restarted { .. } => {
                self.runtime_failed = false;
            },
            _ => {},
        }
    }

    /// A webview event for this pane's webview: a finished load reveals the
    /// page and clears a crash; a renderer crash shows the reload overlay.
    /// Events of other webviews and focus events change nothing. The result
    /// says whether the page just finished loading (the caller refocuses it
    /// if the pane has focus).
    pub fn on_webview_event(&mut self, event: BrowserWebViewEvent) -> (r: bool)
        ensures
            match event {
                BrowserWebViewEvent::UrlChanged(id) => if old(self).webview_id == Some(id) {
                    r && final(self).webview_loaded && !final(self).webview_crashed
                        && final(self).runtime_failed == old(self).runtime_failed
                        && final(self).ready == old(self).ready
                } else {
                    !r && *final(self) == *old(self)
                },
                BrowserWebViewEvent::WebContentCrashed(id) => if old(self).webview_id == Some(id) {
                    !r && final(self).webview_crashed && final(self).webview_loaded
                        == old(self).webview_loaded && final(self).runtime_failed
                        == old(self).runtime_failed && final(self).ready == old(self).ready
                } else {
                    !r && *final(self) == *old(self)
                },
                BrowserWebViewEvent::PageFocused(_) => !r && *final(self) == *old(self),
            },
    {
        match event {
            BrowserWebViewEvent::UrlChanged(id) => {
                if self.webview_id == Some(id) {
                    self.webview_loaded = true;
                    self.webview_crashed = false;
                    true
                } else {
                    false
                }
            },
            BrowserWebViewEvent::WebContentCrashed(id) => {
                if self.webview_id == Some(id) {
                    self.webview_crashed = true;
                }
                false
            },
            BrowserWebViewEvent::PageFocused(_) => false,
        }
    }

    /// The user confirmed the reload of a crashed page at `now`: the overlay
    /// goes, and the webview (returned, to be destroyed and rebuilt) starts
    /// loading anew.
    pub fn recreate_webview(&mut self, now: u64) -> (r: Option<u64>)
        ensures
            r == old(self).webview_id,
            !final(self).webview_crashed,
            r is Some ==> final(self).load_started_at == Some(now) && !final(self).webview_loaded,
            r is None ==> final(self).load_started_at == old(self).load_started_at
                && final(self).webview_loaded == old(self).webview_loaded,
            final(self).ready == old(self).ready,
            final(self).runtime_failed == old(self).runtime_failed,
            final(self).webview_id == old(self).webview_id,
    {
        self.webview_crashed = false;
        match self.webview_id {
            Some(id) => {
                self.load_started_at = Some(now);
                self.webview_loaded = false;
                Some(id)
            },
            None => None,
        }
    }

    /// How the pane meets the runtime at `runtime_url`, `live_url` being the
    /// URL its webview shows (none before it is ready). Only the origin is
    /// compared: the page's URL drifts to the token-less address after load.
    /// On a navigation the pane takes the runtime URL as its own.
    pub fn sync_runtime_url(&mut self, live_url: Option<&str>, runtime_url: &str) -> (r:
        RuntimeUrlSync)
        ensures
            match live_url {
                None => r == RuntimeUrlSync::SetReady,
                Some(live) => if url_origin_spec(live@) == url_origin_spec(runtime_url@) {
                    r == RuntimeUrlSync::Keep
                } else {
                    r == RuntimeUrlSync::Navigate
                },
            },
            r == RuntimeUrlSync::Navigate ==> final(self).current_url@ == runtime_url@,
            r != RuntimeUrlSync::Navigate ==> final(self).current_url == old(self).current_url,
            final(self).ready == old(self).ready,
            final(self).webview_id == old(self).webview_id,
    {
        match live_url {
            None => RuntimeUrlSync::SetReady,
            Some(live) => {
                let a = url_origin(live);
                let b = url_origin(runtime_url);
                if chars_eq(&to_chars(a.as_str()), &to_chars(b.as_str())) {
                    RuntimeUrlSync::Keep
                } else {
                    self.current_url = from_chars(&to_chars(runtime_url));
                    RuntimeUrlSync::Navigate
                }
            },
        }
    }

    /// Whether the webview takes focus when it is attached: never when asked
    /// not to, and not while the page is still loading.
    pub fn attach_with_focus(&self, force_without_focus: bool) -> (r: bool)
        ensures
            r == (!force_without_focus && self.webview_loaded),
    {
        !force_without_focus && self.webview_loaded
    }

    /// A detach at `now`. A close arms a pending stop of the runtime, which
    /// [`DshRuntime::poll_pending_stop`](crate::runtime::DshRuntime::poll_pending_stop)
    /// carries out once no reachable dsh pane is left; a hide during the undo
    /// grace period leaves the runtime alone, so that an undo finds it alive;
    /// a move rebuilds the webview, so the load clock starts over.
    pub fn detach(&mut self, detach_type: DetachType, now: u64) -> (r: PaneDetachEffect)
        ensures
            r == (match detach_type {
                DetachType::Closed => PaneDetachEffect::ArmPendingStop,
                DetachType::HiddenForClose => PaneDetachEffect::Nothing,
                DetachType::Moved => PaneDetachEffect::RestartLoadClock,
            }),
            detach_type == DetachType::Moved ==> final(self).load_started_at == Some(now)
                && !final(self).webview_loaded && final(self).ready == old(self).ready
                && final(self).webview_id == old(self).webview_id && final(self).current_url
                == old(self).current_url && final(self).runtime_failed == old(self).runtime_failed
                && final(self).webview_crashed == old(self).webview_crashed,
            detach_type != DetachType::Moved ==> *final(self) == *old(self),
    {
        match detach_type {
            DetachType::Moved => {
                self.load_started_at = Some(now);
                self.webview_loaded = false;
                PaneDetachEffect::RestartLoadClock
            },
            DetachType::Closed => PaneDetachEffect::ArmPendingStop,
            DetachType::HiddenForClose => PaneDetachEffect::Nothing,
        }
    }
}

/// The attach plan for the runtime's state: while starting, attach as is; when
/// ready, sync the URL first; when stopped or failed, attach without focus and
/// show the failure overlay (unless it shows already).
pub fn attach_plan(status: DshRuntimeStatus, runtime_failed: bool) -> (r: AttachPlan)
    ensures
        r == (match status {
            DshRuntimeStatus::Starting => AttachPlan {
                sync_url: false,
                force_without_focus: false,
                enter_failed: false,
            },
            DshRuntimeStatus::Ready => AttachPlan {
                sync_url: true,
                force_without_focus: false,
                enter_failed: false,
            },
            _ => AttachPlan { sync_url: false, force_without_focus: true, enter_failed: !runtime_failed },
        }),
{
    match status {
        DshRuntimeStatus::Starting => AttachPlan {
            sync_url: false,
            force_without_focus: false,
            enter_failed: false,
        },
        DshRuntimeStatus::Ready => AttachPlan {
            sync_url: true,
            force_without_focus: false,
            enter_failed: false,
        },
        _ => AttachPlan { sync_url: false, force_without_focus: true, enter_failed: !runtime_failed },
    }
}

} // verus!
