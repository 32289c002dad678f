//! The loopback IPC endpoint of the CEF backend: the page's shim POSTs the
//! same `"method\nid\nparams"` messages that the webview IPC channel carries
//! to `http://127.0.0.1:9277/webview-ipc`, guarded by a per-process token.
//!
//! The HTTP plumbing stays with the caller; here are the token, the shim that
//! carries it, and the decision on each request.

use vstd::prelude::*;

use crate::bridge::{handle_zap_ipc, PendingEvents, BridgeEvent, zap_ipc_plan_spec, plan_applied, ZapIpcPlan};
use crate::dsh_context::WorkspaceDir;
use crate::text::{
    has_prefix, push_str, slice_range, starts_with, to_chars, trim, trim_chars, from_chars,
};

verus! {

/// The largest request body accepted, in bytes.
pub const MAX_BODY_BYTES: usize = 65536;

/// The length of a session token.
pub const SESSION_TOKEN_LEN: usize = 32;

/// An ASCII letter or digit.
pub open spec fn is_ascii_alphanumeric(c: char) -> bool {
    ('a' <= c <= 'z') || ('A' <= c <= 'Z') || ('0' <= c <= '9')
}

/// `len` characters drawn with `rand::thread_rng()` from
/// `rand::distributions::Alphanumeric`. Which characters come out is chance;
/// the contract states what holds of every draw: the length, and that each
/// character is an ASCII letter or digit (the distribution's charset).
#[verifier::external_body]
fn random_alphanumeric(len: usize) -> (r: String)
    ensures
        r@.len() == len,
        forall|i: int| 0 <= i < r@.len() ==> is_ascii_alphanumeric(#[trigger] r@[i]),
{
    rand::Rng::sample_iter(rand::thread_rng(), &rand::distributions::Alphanumeric).take(len).map(
        char::from,
    ).collect()
}

/// The loopback token of this process: random, generated once per start,
/// never written to disk or logs.
pub struct SessionToken {
    token: String,
}

impl View for SessionToken {
    type V = Seq<char>;

    closed spec fn view(&self) -> Seq<char> {
        self.token@
    }
}

impl SessionToken {
    /// A fresh random token of [`SESSION_TOKEN_LEN`] ASCII letters and digits.
    pub fn generate() -> (r: SessionToken)
        ensures
            r@.len() == SESSION_TOKEN_LEN,
            forall|i: int| 0 <= i < r@.len() ==> is_ascii_alphanumeric(#[trigger] r@[i]),
    {
        SessionToken { token: random_alphanumeric(SESSION_TOKEN_LEN) }
    }

    /// The token text.
    pub fn as_str(&self) -> (r: &str)
        ensures
            r@ == self@,
    {
        self.token.as_str()
    }

    /// Whether `candidate` is this token (in constant time).
    pub fn matches(&self, candidate: &str) -> (r: bool)
        ensures
            r == (candidate@ == self@),
    {
        token_matches(self.token.as_str(), candidate)
    }
}

/// Whether `candidate` equals `expected`, comparing every byte whatever the
/// earlier bytes gave, so that the time taken does not reveal how long a
/// matching prefix was.
pub fn token_matches(expected: &str, candidate: &str) -> (r: bool)
    ensures
        r == (candidate@ == expected@),
{
    let e = expected.as_bytes();
    let c = candidate.as_bytes();
    if c.len() != e.len() {
        proof {
            if candidate@ == expected@ {
                assert(e@ == c@);
            }
        }
        return false;
    }
    let mut diff: u8 = 0;
    let mut i: usize = 0;
    while i < e.len()
        invariant
            e@.len() == c@.len(),
            i <= e@.len(),
            (diff == 0) <==> forall|j: int| 0 <= j < i ==> e@[j] == c@[j],
        decreases e@.len() - i,
    {
        let a = e[i];
        let b = c[i];
        proof {
            assert((diff | (a ^ b)) == 0u8 <==> (diff == 0u8 && a == b)) by (bit_vector);
        }
        diff = diff | (a ^ b);
        i += 1;
    }
    proof {
        vstd::utf8::encode_utf8_decode_utf8(expected@);
        vstd::utf8::encode_utf8_decode_utf8(candidate@);
        if diff == 0 {
            assert(e@ =~= c@);
        }
    }
    diff == 0
}

/// The message without the `zap:` prefix that the dsh client puts in front;
/// a message without it is passed on unchanged.
pub open spec fn normalized_payload(message: Seq<char>) -> Seq<char> {
    if has_prefix(message, "zap:"@) {
        message.skip(4)
    } else {
        message
    }
}

/// Strips the client's `zap:` prefix, as [`normalized_payload`] says.
pub fn normalize_zap_payload(message: &str) -> (r: String)
    ensures
        r@ == normalized_payload(message@),
{
    let m = to_chars(message);
    let prefix = to_chars("zap:");
    proof {
        reveal_strlit("zap:");
    }
    if starts_with(&m, &prefix) {
        from_chars(&slice_range(&m, 4, m.len()))
    } else {
        from_chars(&m)
    }
}

/// The token and the message of a request. `envelope` is the request body
/// read as the shim's JSON envelope `{"token": …, "message": …}` (`None`
/// where the body is no such envelope). The envelope is the authoritative
/// source; a plain body is the message itself, with the token from the query
/// string or, failing that, from the header (native callers).
pub fn extract_token_and_message(
    envelope: Option<(String, String)>,
    body: &str,
    query_token: Option<&str>,
    header_token: Option<&str>,
) -> (r: (Option<String>, String))
    ensures
        match envelope {
            Some((token, message)) => r.0 == Some(token) && r.1 == message,
            None => r.1@ == body@ && match (query_token, header_token) {
                (Some(q), _) => r.0 matches Some(t) && t@ == q@,
                (None, Some(h)) => r.0 matches Some(t) && t@ == h@,
                (None, None) => r.0 is None,
            },
        },
{
    match envelope {
        Some((token, message)) => (Some(token), message),
        None => {
            let provided = match query_token {
                Some(q) => Some(q.to_owned()),
                None => match header_token {
                    Some(h) => Some(h.to_owned()),
                    None => None,
                },
            };
            (provided, body.to_owned())
        },
    }
}

/// How the endpoint answers a request.
#[derive(Debug)]
pub enum WebviewIpcResponse {
    /// 403: the request carried no valid token; nothing happened.
    Forbidden,
    /// 200: the page asked to open `url` in the system browser.
    OpenExternal { url: String },
    /// 200: the message went to the bridge; `event` is what it queued (the
    /// caller requests a redraw so that the queue is drained).
    Bridged { event: Option<BridgeEvent> },
}

/// The text after `warp:open-external:`, where the message starts with it.
pub open spec fn external_target(message: Seq<char>) -> Option<Seq<char>> {
    if has_prefix(message, "warp:open-external:"@) {
        Some(message.skip(19))
    } else {
        None
    }
}

/// Answers one request whose token and message were extracted: without the
/// session token nothing happens; `warp:open-external:<url>` asks for the
/// system browser (links must not navigate the pane, which has no back
/// button); anything else is a `zap.*` message for the bridge, handled as the
/// webview IPC channel handles it.
pub fn handle_webview_ipc(
    session: &SessionToken,
    queue: &mut PendingEvents,
    workspace: &mut WorkspaceDir,
    provided: Option<String>,
    message: &str,
) -> (r: WebviewIpcResponse)
    ensures
        !(provided matches Some(t) && t@ == session@) ==> r is Forbidden && final(queue)@ == old(
            queue,
        )@ && final(workspace)@ == old(workspace)@,
        provided matches Some(t) && t@ == session@ ==> match external_target(message@) {
            Some(target) => (r matches WebviewIpcResponse::OpenExternal { url } && url@ == trim(
                target,
            )) && final(queue)@ == old(queue)@ && final(workspace)@ == old(workspace)@,
            None => r matches WebviewIpcResponse::Bridged { event } && exists|plan: ZapIpcPlan|
                zap_ipc_plan_spec(normalized_payload(message@), plan) && #[trigger] plan_applied(
                    plan,
                    event,
                    old(queue)@,
                    final(queue)@,
                    old(workspace)@,
                    final(workspace)@,
                ),
        },
{
    let authorized = match &provided {
        Some(t) => session.matches(t.as_str()),
        None => false,
    };
    if !authorized {
        return WebviewIpcResponse::Forbidden;
    }
    let m = to_chars(message);
    let prefix = to_chars("warp:open-external:");
    proof {
        reveal_strlit("warp:open-external:");
    }
    if starts_with(&m, &prefix) {
        let rest = slice_range(&m, 19, m.len());
        let url = from_chars(&trim_chars(&rest));
        proof {
            assert(rest@ =~= message@.skip(19));
        }
        return WebviewIpcResponse::OpenExternal { url };
    }
    let payload = normalize_zap_payload(message);
    let event = handle_zap_ipc(queue, workspace, payload.as_str());
    WebviewIpcResponse::Bridged { event }
}

/// The text of the shim up to the token.
pub const SHIM_HEAD: &'static str = "
(function () {
  if (window.__ZAP_LOOPBACK_IPC__) return;
  window.__ZAP_LOOPBACK_IPC__ = true;
  const ENDPOINT = 'http://127.0.0.1:9277/webview-ipc';
  const TOKEN = '";

/// The text of the shim after the token.
pub const SHIM_TAIL: &'static str = "';
  const post = (message) => {
    const text = typeof message === 'string' ? message : JSON.stringify(message);
    try {
      // token 放**请求体**的信封里,而不是请求头或 URL:
      // - 请求头:no-cors 请求会把非 CORS-safelisted 头**静默丢弃**(实测到达时
      //   为 null),等于没带 token → 服务端必然 403;
      // - URL:http_server 的 TraceLayer 默认在 DEBUG 级记录 uri(全局过滤在 Info,
      //   默认不落盘),但一旦有人开 DEBUG 就会把 token 写进日志 —— 体则不会。
      // 请求体不参与 CORS 预检也不进访问日志,故三者中唯一可行。
      const envelope = JSON.stringify({ token: TOKEN, message: text });
      fetch(ENDPOINT, {
        method: 'POST',
        mode: 'no-cors',
        headers: { 'Content-Type': 'text/plain' },
        body: envelope,
        keepalive: true,
      }).catch((err) => console.warn('[zap] loopback ipc failed', err));
    } catch (err) {
      console.warn('[zap] loopback ipc threw', err);
    }
  };
  window.webkit = window.webkit || {};
  window.webkit.messageHandlers = window.webkit.messageHandlers || {};
  window.webkit.messageHandlers.ipc = { postMessage: post };
  // 回放\"文档开始 → 本 shim 就位\"之间排队的消息(引导脚本里的占位实现)。
  const queued = window.__zapIpcQueue || [];
  window.__zapIpcQueue = [];
  queued.forEach(post);
})();
";

/// The script injected into the page: it points
/// `window.webkit.messageHandlers.ipc.postMessage` at the loopback endpoint,
/// so that the dsh client plugins work unchanged, and carries `token`.
pub fn shim_script(token: &str) -> (r: String)
    ensures
        r@ == SHIM_HEAD@ + token@ + SHIM_TAIL@,
{
    let mut out = String::new();
    push_str(&mut out, SHIM_HEAD);
    push_str(&mut out, token);
    push_str(&mut out, SHIM_TAIL);
    out
}

} // verus!
