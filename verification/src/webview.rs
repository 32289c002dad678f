//! Bookkeeping of the embedded webviews: id allocation, which webviews belong
//! to dsh, how a message from a page is dispatched, which URLs may leave for
//! the system browser, and the per-frame visibility sync.

use std::collections::HashSet;
use vstd::prelude::*;

use crate::text::{chars_eq, from_chars, has_prefix, slice_range, starts_with, to_chars};

verus! {

/// The webview backend of a pane.
#[derive(Debug, Clone, Copy, PartialEq, Eq, Structural)]
pub enum WebViewBackend {
    /// wry / WKWebView (the default path).
    Wry,
    /// CEF (Chromium), for the dsh pane.
    Cef,
}

/// Webview events, dispatched to the panes.
#[derive(Debug, Clone, Copy, PartialEq, Eq, Structural)]
pub enum BrowserWebViewEvent {
    /// An element of the page took focus.
    PageFocused(u64),
    /// A page finished loading; its URL may have changed.
    UrlChanged(u64),
    /// The page's renderer process died.
    WebContentCrashed(u64),
}

/// What `url::Url::parse` gives as the scheme of `text`: `None` where the
/// text is no valid absolute URL.
pub uninterp spec fn url_scheme(text: Seq<char>) -> Option<Seq<char>>;

/// Parses `text` with `url::Url::parse` and returns `Url::scheme`. The
/// contract names the result ([`url_scheme`]); URL syntax is not restated.
#[verifier::external_body]
fn parse_url_scheme(text: &str) -> (r: Option<String>)
    ensures
        match url_scheme(text@) {
            Some(s) => r matches Some(v) && v@ == s,
            None => r is None,
        },
{
    url::Url::parse(text).ok().map(|u| u.scheme().to_string())
}

/// Schemes that may be handed to the system's default browser or app.
pub open spec fn is_openable_scheme(s: Seq<char>) -> bool {
    s == "http"@ || s == "https"@ || s == "mailto"@ || s == "tel"@
}

/// Whether `url` may be opened outside: a valid URL with scheme http, https,
/// mailto or tel (never `javascript:` and other pseudo-protocols).
pub fn is_externally_openable(url: &str) -> (r: bool)
    ensures
        r == (url_scheme(url@) matches Some(s) && is_openable_scheme(s)),
{
    match parse_url_scheme(url) {
        Some(s) => {
            let c = to_chars(s.as_str());
            chars_eq(&c, &to_chars("http")) || chars_eq(&c, &to_chars("https")) || chars_eq(
                &c,
                &to_chars("mailto"),
            ) || chars_eq(&c, &to_chars("tel"))
        },
        None => false,
    }
}

/// Whether the address bar accepts `input`: a valid http or https URL.
pub fn is_http_url(input: &str) -> (r: bool)
    ensures
        r == (url_scheme(input@) matches Some(s) && (s == "http"@ || s == "https"@)),
{
    match parse_url_scheme(input) {
        Some(s) => {
            let c = to_chars(s.as_str());
            chars_eq(&c, &to_chars("http")) || chars_eq(&c, &to_chars("https"))
        },
        None => false,
    }
}

/// Hands out platform-view ids, from 1 up.
pub struct WebviewIds {
    next: u64,
}

impl View for WebviewIds {
    type V = u64;

    closed spec fn view(&self) -> u64 {
        self.next
    }
}

impl WebviewIds {
    /// The first id handed out is 1.
    pub fn new() -> (r: WebviewIds)
        ensures
            r@ == 1,
    {
        WebviewIds { next: 1 }
    }

    /// A new id; the counter wraps around as an atomic `fetch_add` does.
    pub fn allocate_id(&mut self) -> (r: u64)
        ensures
            r == old(self)@,
            final(self)@ == (if old(self)@ == u64::MAX {
                0
            } else {
                old(self)@ + 1
            }),
    {
        let id = self.next;
        self.next = self.next.wrapping_add(1);
        id
    }
}

/// Ids come out strictly increasing until the counter wraps, so no id is
/// handed out twice before that.
pub proof fn law_ids_increase(before: u64, first: u64, middle: u64, second: u64, after: u64)
    requires
        before < u64::MAX,
        first == before,
        middle == before + 1,
        second == middle,
        after == (if middle == u64::MAX {
            0
        } else {
            middle + 1
        }),
    ensures
        first < second,
{
}

/// The webviews of dsh panes: only they may send `zap:` messages.
pub struct DshWebviewIds {
    ids: HashSet<u64>,
}

impl View for DshWebviewIds {
    type V = Set<u64>;

    closed spec fn view(&self) -> Set<u64> {
        self.ids@
    }
}

impl DshWebviewIds {
    /// No dsh webview yet.
    pub fn new() -> (r: DshWebviewIds)
        ensures
            r@ == Set::<u64>::empty(),
    {
        DshWebviewIds { ids: HashSet::new() }
    }

    /// Whether `id` belongs to a dsh pane.
    pub fn contains(&self, id: u64) -> (r: bool)
        ensures
            r == self@.contains(id),
    {
        broadcast use vstd::std_specs::hash::group_hash_axioms;
        self.ids.contains(&id)
    }

    /// Registers the webview of a dsh pane.
    pub fn register_dsh_webview(&mut self, id: u64)
        ensures
            final(self)@ == old(self)@.insert(id),
    {
        broadcast use vstd::std_specs::hash::group_hash_axioms;
        self.ids.insert(id);
    }

    /// Forgets the webview of a dsh pane.
    pub fn unregister_dsh_webview(&mut self, id: u64)
        ensures
            final(self)@ == old(self)@.remove(id),
    {
        broadcast use vstd::std_specs::hash::group_hash_axioms;
        self.ids.remove(&id);
    }

    /// The dsh webview that the set yields first, if any (the one text is
    /// inserted into). Which one that is follows the set's walk order, which
    /// is not stated.
    pub fn any(&self) -> (r: Option<u64>)
        ensures
            r is None <==> self@.is_empty(),
            r matches Some(id) ==> self@.contains(id),
    {
        broadcast use vstd::std_specs::hash::group_hash_axioms;
        proof {
            assert(vstd::std_specs::iter::IteratorSpec::remaining(&self.ids.iter()).unref().to_set()
                == self@);
        }
        for x in walk: self.ids.iter()
            invariant
                walk.seq().unref().to_set() == self@,
                walk.index() == 0,
        {
            proof {
                assert(walk.seq().unref()[0] == *x);
            }
            return Some(*x);
        }
        None
    }
}

/// A registered webview is a dsh webview until it is unregistered.
pub proof fn law_register_then_contains(s: Set<u64>, id: u64, other: u64)
    ensures
        s.insert(id).contains(id),
        !s.insert(id).remove(id).contains(id),
        other != id ==> (s.insert(id).remove(id).contains(other) == s.contains(other)),
{
}

/// What a message from a page asks for.
#[derive(Debug)]
pub enum WebviewIpcAction {
    /// `warp:webview-js-error:<message>`: a JavaScript error to log.
    LogJsError { message: String },
    /// `warp:open-external:<url>` with an openable URL: open it in the system
    /// browser, at once.
    OpenExternal { url: String },
    /// `warp:open-external:<url>` with any other URL: refused.
    SkipExternal { url: String },
    /// `zap:<payload>` from a dsh webview: a message for the bridge.
    Bridge { payload: String },
    /// `zap:` from any other webview: refused.
    RejectZap,
    /// `warp:webview-focusin` or `warp:webview-mousedown`: the page took focus.
    Focus,
    /// Anything else.
    Ignore,
}

/// The meaning of a page message, `is_dsh` saying whether it came from a
/// dsh webview.
pub open spec fn webview_ipc_action_spec(body: Seq<char>, is_dsh: bool, r: WebviewIpcAction) -> bool {
    if has_prefix(body, "warp:webview-js-error:"@) {
        r matches WebviewIpcAction::LogJsError { message } && message@ == body.skip(22)
    } else if has_prefix(body, "warp:open-external:"@) {
        let url = body.skip(19);
        if url_scheme(url) matches Some(s) && is_openable_scheme(s) {
            r matches WebviewIpcAction::OpenExternal { url: u } && u@ == url
        } else {
            r matches WebviewIpcAction::SkipExternal { url: u } && u@ == url
        }
    } else if has_prefix(body, "zap:"@) {
        if is_dsh {
            r matches WebviewIpcAction::Bridge { payload } && payload@ == body.skip(4)
        } else {
            r is RejectZap
        }
    } else if body == "warp:webview-focusin"@ || body == "warp:webview-mousedown"@ {
        r is Focus
    } else {
        r is Ignore
    }
}

/// Dispatches a page message as [`webview_ipc_action_spec`] says.
pub fn classify_webview_ipc(body: &str, is_dsh: bool) -> (r: WebviewIpcAction)
    ensures
        webview_ipc_action_spec(body@, is_dsh, r),
{
    let b = to_chars(body);
    let n = b.len();
    proof {
        reveal_strlit("warp:webview-js-error:");
        reveal_strlit("warp:open-external:");
        reveal_strlit("zap:");
    }
    if starts_with(&b, &to_chars("warp:webview-js-error:")) {
        let rest = slice_range(&b, 22, n);
        proof {
            assert(rest@ =~= body@.skip(22));
        }
        return WebviewIpcAction::LogJsError { message: from_chars(&rest) };
    }
    if starts_with(&b, &to_chars("warp:open-external:")) {
        let rest = slice_range(&b, 19, n);
        proof {
            assert(rest@ =~= body@.skip(19));
        }
        let url = from_chars(&rest);
        if is_externally_openable(url.as_str()) {
            return WebviewIpcAction::OpenExternal { url };
        } else {
            return WebviewIpcAction::SkipExternal { url };
        }
    }
    if starts_with(&b, &to_chars("zap:")) {
        if is_dsh {
            let rest = slice_range(&b, 4, n);
            proof {
                assert(rest@ =~= body@.skip(4));
            }
            return WebviewIpcAction::Bridge { payload: from_chars(&rest) };
        } else {
            return WebviewIpcAction::RejectZap;
        }
    }
    if chars_eq(&b, &to_chars("warp:webview-focusin")) || chars_eq(
        &b,
        &to_chars("warp:webview-mousedown"),
    ) {
        return WebviewIpcAction::Focus;
    }
    WebviewIpcAction::Ignore
}

/// The default background of a CEF webview (opaque `#1E1E1E`).
pub const DEFAULT_BACKGROUND: u32 = 0xFF1E1E1E;

/// An opaque `0xAARRGGBB` color.
pub open spec fn argb(r: u8, g: u8, b: u8) -> u32 {
    0xFF000000u32 | ((r as u32) << 16u32) | ((g as u32) << 8u32) | (b as u32)
}

/// The background of a CEF webview: the theme color, opaque, or the default.
pub fn background_argb(color: Option<(u8, u8, u8)>) -> (r: u32)
    ensures
        r == match color {
            Some((red, green, blue)) => argb(red, green, blue),
            None => DEFAULT_BACKGROUND,
        },
{
    match color {
        Some((red, green, blue)) => 0xFF000000u32 | ((red as u32) << 16u32) | ((green as u32)
            << 8u32) | (blue as u32),
        None => DEFAULT_BACKGROUND,
    }
}

/// The channels of an `argb` color read back what it was made from, with
/// full alpha.
pub proof fn law_argb_channels(r: u8, g: u8, b: u8)
    ensures
        (argb(r, g, b) >> 24u32) & 0xFFu32 == 0xFFu32,
        (argb(r, g, b) >> 16u32) & 0xFFu32 == r as u32,
        (argb(r, g, b) >> 8u32) & 0xFFu32 == g as u32,
        argb(r, g, b) & 0xFFu32 == b as u32,
{
    let rr = r as u32;
    let gg = g as u32;
    let bb = b as u32;
    assert({
        let v = 0xFF000000u32 | (rr << 16u32) | (gg << 8u32) | bb;
        &&& (v >> 24u32) & 0xFFu32 == 0xFFu32
        &&& (v >> 16u32) & 0xFFu32 == rr
        &&& (v >> 8u32) & 0xFFu32 == gg
        &&& v & 0xFFu32 == bb
    }) by (bit_vector)
        requires
            rr < 256,
            gg < 256,
            bb < 256,
    ;
}

/// The events of a frame, in dispatch order: focus, then loads, then crashes.
pub open spec fn frame_events(focus: Seq<u64>, loaded: Seq<u64>, crashed: Seq<u64>) -> Seq<
    BrowserWebViewEvent,
> {
    focus.map_values(|id: u64| BrowserWebViewEvent::PageFocused(id)) + loaded.map_values(
        |id: u64| BrowserWebViewEvent::UrlChanged(id),
    ) + crashed.map_values(|id: u64| BrowserWebViewEvent::WebContentCrashed(id))
}

/// Orders a frame's pending webview events for dispatch.
pub fn order_webview_events(focus: &Vec<u64>, loaded: &Vec<u64>, crashed: &Vec<u64>) -> (r: Vec<
    BrowserWebViewEvent,
>)
    ensures
        r@ == frame_events(focus@, loaded@, crashed@),
{
    let mut out: Vec<BrowserWebViewEvent> = Vec::new();
    let mut i: usize = 0;
    while i < focus.len()
        invariant
            i <= focus@.len(),
            out@ =~= focus@.take(i as int).map_values(|id: u64| BrowserWebViewEvent::PageFocused(id)),
        decreases focus@.len() - i,
    {
        out.push(BrowserWebViewEvent::PageFocused(focus[i]));
        proof {
            assert(focus@.take(i + 1) =~= focus@.take(i as int).push(focus@[i as int]));
        }
        i += 1;
    }
    proof {
        assert(focus@.take(i as int) =~= focus@);
    }
    let ghost a = out@;
    let mut j: usize = 0;
    while j < loaded.len()
        invariant
            j <= loaded@.len(),
            out@ =~= a + loaded@.take(j as int).map_values(|id: u64| BrowserWebViewEvent::UrlChanged(id)),
        decreases loaded@.len() - j,
    {
        out.push(BrowserWebViewEvent::UrlChanged(loaded[j]));
        proof {
            assert(loaded@.take(j + 1) =~= loaded@.take(j as int).push(loaded@[j as int]));
        }
        j += 1;
    }
    proof {
        assert(loaded@.take(j as int) =~= loaded@);
    }
    let ghost b = out@;
    let mut k: usize = 0;
    while k < crashed.len()
        invariant
            k <= crashed@.len(),
            out@ =~= b + crashed@.take(k as int).map_values(
                |id: u64| BrowserWebViewEvent::WebContentCrashed(id),
            ),
        decreases crashed@.len() - k,
    {
        out.push(BrowserWebViewEvent::WebContentCrashed(crashed[k]));
        proof {
            assert(crashed@.take(k + 1) =~= crashed@.take(k as int).push(crashed@[k as int]));
        }
        k += 1;
    }
    proof {
        assert(crashed@.take(k as int) =~= crashed@);
    }
    out
}

/// The webviews of `window` (from `(id, window)` pairs, in order) that the
/// frame did not report: they are hidden.
pub open spec fn unreported(entries: Seq<(u64, u64)>, window: u64, reported: Seq<u64>) -> Seq<u64>
    decreases entries.len(),
{
    if entries.len() == 0 {
        seq![]
    } else {
        let e = entries.last();
        let rest = unreported(entries.drop_last(), window, reported);
        if e.1 == window && !reported.contains(e.0) {
            rest.push(e.0)
        } else {
            rest
        }
    }
}

/// The webviews of `window` to hide after a frame that reported `reported`.
pub fn webviews_to_hide(entries: &Vec<(u64, u64)>, window: u64, reported: &Vec<u64>) -> (r: Vec<u64>)
    ensures
        r@ == unreported(entries@, window, reported@),
{
    let mut out: Vec<u64> = Vec::new();
    let mut i: usize = 0;
    while i < entries.len()
        invariant
            i <= entries@.len(),
            out@ == unreported(entries@.take(i as int), window, reported@),
        decreases entries@.len() - i,
    {
        proof {
            assert(entries@.take(i + 1).drop_last() =~= entries@.take(i as int));
        }
        let (id, w) = entries[i];
        if w == window {
            let mut seen = false;
            let mut k: usize = 0;
            while k < reported.len()
                invariant
                    k <= reported@.len(),
                    seen == exists|m: int| 0 <= m < k && reported@[m] == id,
                decreases reported@.len() - k,
            {
                if reported[k] == id {
                    seen = true;
                }
                k += 1;
            }
            proof {
                if reported@.contains(id) {
                    let m = choose|m: int| 0 <= m < reported@.len() && reported@[m] == id;
                    assert(seen);
                }
            }
            if !seen {
                out.push(id);
            }
        }
        i += 1;
    }
    proof {
        assert(entries@.take(i as int) =~= entries@);
    }
    out
}

} // verus!
