//! Freezing hidden CEF pages: when a hidden page is due to be frozen, and the
//! DevTools protocol messages that freeze and thaw it.

use vstd::prelude::*;

use crate::pid_record::{all_digits, digit_value, digits_value, is_digit};
use crate::text::{push_str, to_chars};

verus! {

/// The freeze delay used when no setting says otherwise, in seconds.
pub const DEFAULT_FREEZE_AFTER_SECS: u64 = 300;

/// `u64::from_str`: an optional `+`, then one or more decimal digits, with a
/// value that fits.
pub open spec fn parse_u64(s: Seq<char>) -> Option<u64> {
    let ds = if s.len() > 0 && s[0] == '+' {
        s.drop_first()
    } else {
        s
    };
    if ds.len() > 0 && all_digits(ds) && digits_value(ds) <= u64::MAX {
        Some(digits_value(ds) as u64)
    } else {
        None
    }
}

/// Parses a decimal `u64` as `str::parse::<u64>` does.
pub fn parse_u64_exec(text: &str) -> (r: Option<u64>)
    ensures
        r == parse_u64(text@),
{
    parse_u64_chars(&to_chars(text))
}

fn parse_u64_chars(s: &[char]) -> (r: Option<u64>)
    ensures
        r == parse_u64(s@),
{
    let n = s.len();
    let signed = n > 0 && s[0] == '+';
    let first: usize = if signed {
        1
    } else {
        0
    };
    let ghost ds = if signed {
        s@.drop_first()
    } else {
        s@
    };
    if first == n {
        return None;
    }
    let mut acc: u64 = 0;
    let mut big = false;
    let mut k: usize = first;
    proof {
        assert(ds.take(0) =~= Seq::<char>::empty());
    }
    while k < n
        invariant
            first <= k <= n,
            n == s@.len(),
            ds =~= s@.skip(first as int),
            ds == (if signed {
                s@.drop_first()
            } else {
                s@
            }),
            signed == (s@.len() > 0 && s@[0] == '+'),
            forall|j: int| 0 <= j < k - first ==> is_digit(#[trigger] ds[j]),
            !big ==> acc == digits_value(ds.take(k - first)),
            big ==> digits_value(ds.take(k - first)) > u64::MAX,
            digits_value(ds.take(k - first)) >= 0,
        decreases n - k,
    {
        let c = s[k];
        if !('0' <= c && c <= '9') {
            proof {
                assert(ds[k - first] == c);
                assert(!is_digit(ds[k - first]));
                assert(!all_digits(ds));
            }
            return None;
        }
        let d = (c as u32 - '0' as u32) as u64;
        proof {
            let dk = ds.take(k + 1 - first);
            assert(dk.drop_last() =~= ds.take(k - first));
            assert(dk.last() == c);
            assert(d == digit_value(c));
            assert(digits_value(dk) == 10 * digits_value(ds.take(k - first)) + d);
        }
        if !big {
            match acc.checked_mul(10) {
                Some(m) => match m.checked_add(d) {
                    Some(v) => {
                        acc = v;
                    },
                    None => {
                        big = true;
                    },
                },
                None => {
                    big = true;
                },
            }
        }
        k += 1;
    }
    proof {
        assert(ds.take(n - first) =~= ds);
        assert(all_digits(ds));
    }
    if big {
        return None;
    }
    Some(acc)
}

/// The freeze delay in force: an override that parses as a `u64` wins over
/// the setting; zero means never.
pub open spec fn freeze_after_spec(override_value: Option<Seq<char>>, setting_secs: u64) -> Option<u64> {
    let secs = match override_value {
        Some(v) => match parse_u64(v) {
            Some(n) => n,
            None => setting_secs,
        },
        None => setting_secs,
    };
    if secs > 0 {
        Some(secs)
    } else {
        None
    }
}

/// The freeze delay in seconds from the `ZAP_CEF_FREEZE_AFTER_SECS` override
/// (when set) and the setting; `None` where pages are never frozen.
pub fn freeze_after(override_value: Option<&str>, setting_secs: u64) -> (r: Option<u64>)
    ensures
        r == freeze_after_spec(
            match override_value {
                Some(v) => Some(v@),
                None => None,
            },
            setting_secs,
        ),
{
    let secs = match override_value {
        Some(v) => match parse_u64_exec(v) {
            Some(n) => n,
            None => setting_secs,
        },
        None => setting_secs,
    };
    if secs > 0 {
        Some(secs)
    } else {
        None
    }
}

/// A page is frozen once it has been hidden for the whole delay, is not yet
/// frozen, and has a browser to send the message to.
pub open spec fn freeze_due_spec(
    visible: bool,
    frozen: bool,
    has_browser: bool,
    hidden_for_ms: Option<u64>,
    threshold_secs: u64,
) -> bool {
    &&& !visible
    &&& !frozen
    &&& has_browser
    &&& hidden_for_ms matches Some(ms) && ms >= threshold_secs * 1000
}

/// Whether a page is due to be frozen: hidden for `hidden_for_ms`
/// milliseconds (`None` while shown) against a delay of `threshold_secs`.
pub fn freeze_due(
    visible: bool,
    frozen: bool,
    has_browser: bool,
    hidden_for_ms: Option<u64>,
    threshold_secs: u64,
) -> (r: bool)
    ensures
        r == freeze_due_spec(visible, frozen, has_browser, hidden_for_ms, threshold_secs),
{
    if visible || frozen || !has_browser {
        return false;
    }
    match hidden_for_ms {
        None => false,
        Some(ms) => match threshold_secs.checked_mul(1000) {
            Some(limit) => ms >= limit,
            None => false,
        },
    }
}

/// A DevTools protocol command: `{"id":1,"method":"<method>","params":<params>}`.
pub open spec fn cdp_message_spec(method: Seq<char>, params: Seq<char>) -> Seq<char> {
    "{\"id\":1,\"method\":\""@ + method + "\",\"params\":"@ + params + "}"@
}

/// Writes the DevTools protocol command that calls `method` with the JSON
/// object `params`.
pub fn cdp_message(method: &str, params: &str) -> (r: String)
    ensures
        r@ == cdp_message_spec(method@, params@),
{
    let mut out = String::new();
    push_str(&mut out, "{\"id\":1,\"method\":\"");
    push_str(&mut out, method);
    push_str(&mut out, "\",\"params\":");
    push_str(&mut out, params);
    push_str(&mut out, "}");
    proof {
        assert(out@ =~= cdp_message_spec(method@, params@));
    }
    out
}

/// The method that moves a page between lifecycle states.
pub const SET_LIFECYCLE_METHOD: &'static str = "Page.setWebLifecycleState";

/// The parameters that freeze a page.
pub const FROZEN_PARAMS: &'static str = "{\"state\":\"frozen\"}";

/// The parameters that make a frozen page active again.
pub const ACTIVE_PARAMS: &'static str = "{\"state\":\"active\"}";

/// The freeze-related state of one CEF page. Times are milliseconds on a
/// monotonic clock chosen by the caller.
#[derive(Debug, Clone, Copy, PartialEq, Eq, Structural)]
pub struct PageLifecycle {
    pub visible: bool,
    /// When the page was hidden; `None` while it is shown.
    pub hidden_since: Option<u64>,
    /// The page was frozen and not thawed since.
    pub frozen: bool,
}

/// `post` is `pre` after the page was shown (`visible`) or hidden at `now`,
/// `needs_thaw` what the call returned: showing clears the hiding time and
/// asks for a thaw of a frozen page; hiding keeps the first hiding time.
pub open spec fn set_visible_rel(
    pre: PageLifecycle,
    post: PageLifecycle,
    visible: bool,
    now: u64,
    needs_thaw: bool,
) -> bool {
    &&& post.visible == visible
    &&& post.frozen == pre.frozen
    &&& if visible {
        post.hidden_since is None && needs_thaw == pre.frozen
    } else {
        post.hidden_since == (match pre.hidden_since {
            Some(t) => Some(t),
            None => Some(now),
        }) && !needs_thaw
    }
}

/// How long the page has been hidden at `now`, in milliseconds.
pub open spec fn hidden_for(page: PageLifecycle, now: u64) -> Option<u64> {
    match page.hidden_since {
        Some(t) => Some(if now >= t {
            (now - t) as u64
        } else {
            0
        }),
        None => None,
    }
}

impl PageLifecycle {
    /// A new page: shown, not frozen.
    pub fn new() -> (r: PageLifecycle)
        ensures
            r.visible,
            r.hidden_since is None,
            !r.frozen,
    {
        PageLifecycle { visible: true, hidden_since: None, frozen: false }
    }

    /// Shows or hides the page at `now`; the result says whether the page is
    /// to be thawed (it stays marked frozen until [`Self::thawed`]).
    pub fn set_visible(&mut self, visible: bool, now: u64) -> (needs_thaw: bool)
        ensures
            set_visible_rel(*old(self), *final(self), visible, now, needs_thaw),
    {
        self.visible = visible;
        if visible {
            self.hidden_since = None;
            self.frozen
        } else {
            if self.hidden_since.is_none() {
                self.hidden_since = Some(now);
            }
            false
        }
    }

    /// The thaw message went out: the page is active again. A failed thaw
    /// leaves the page frozen, so that the next show tries again.
    pub fn thawed(&mut self)
        ensures
            *final(self) == (PageLifecycle { frozen: false, ..*old(self) }),
    {
        self.frozen = false;
    }

    /// The freeze message went out.
    pub fn froze(&mut self)
        ensures
            *final(self) == (PageLifecycle { frozen: true, ..*old(self) }),
    {
        self.frozen = true;
    }

    /// Whether the page is due to be frozen at `now`, as
    /// [`freeze_due_spec`] says of the time it has been hidden.
    pub fn freeze_due_at(&self, has_browser: bool, now: u64, threshold_secs: u64) -> (r: bool)
        ensures
            r == freeze_due_spec(
                self.visible,
                self.frozen,
                has_browser,
                hidden_for(*self, now),
                threshold_secs,
            ),
    {
        let hidden = match self.hidden_since {
            Some(t) => Some(if now >= t {
                now - t
            } else {
                0
            }),
            None => None,
        };
        freeze_due(self.visible, self.frozen, has_browser, hidden, threshold_secs)
    }
}

/// A page that is shown is never frozen, however long it was hidden before.
pub proof fn law_shown_pages_do_not_freeze(
    pre: PageLifecycle,
    post: PageLifecycle,
    now: u64,
    needs_thaw: bool,
    has_browser: bool,
    later: u64,
    threshold_secs: u64,
)
    requires
        set_visible_rel(pre, post, true, now, needs_thaw),
    ensures
        !freeze_due_spec(post.visible, post.frozen, has_browser, hidden_for(post, later), threshold_secs),
{
}

/// A page hidden at `now` (and not frozen, with a browser) becomes due once
/// the whole delay has passed, and not before.
pub proof fn law_hidden_page_freezes_after_delay(
    pre: PageLifecycle,
    post: PageLifecycle,
    now: u64,
    needs_thaw: bool,
    later: u64,
    threshold_secs: u64,
)
    requires
        pre.visible,
        pre.hidden_since is None,
        !pre.frozen,
        set_visible_rel(pre, post, false, now, needs_thaw),
        now <= later,
    ensures
        freeze_due_spec(post.visible, post.frozen, true, hidden_for(post, later), threshold_secs)
            <==> later - now >= threshold_secs * 1000,
{
}

/// Showing a frozen page asks for a thaw, and the page counts as frozen until
/// the thaw went out.
pub proof fn law_frozen_page_is_thawed_when_shown(
    pre: PageLifecycle,
    post: PageLifecycle,
    now: u64,
    needs_thaw: bool,
)
    requires
        pre.frozen,
        set_visible_rel(pre, post, true, now, needs_thaw),
    ensures
        needs_thaw,
        post.frozen,
{
}

} // verus!
