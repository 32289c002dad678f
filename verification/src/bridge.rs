//! The Zap side of the dsh bridge: `zap.*` messages that the browser-side
//! plugin sends over the webview IPC channel, and the queue of events that the
//! main thread drains every frame.
//!
//! A message is `"<method>\n<id>\n<params json>"`. Deciding what a message asks
//! for is pure and lives here ([`plan_zap_ipc`]); resolving paths on disk is the
//! caller's part, and [`resolve_path_event`] turns its findings into the event.

use std::path::PathBuf;
use vstd::prelude::*;

use crate::dsh_context::WorkspaceDir;
use crate::json::{json_field, json_object_field, JsonField, JsonFieldView};
use crate::text::{find_char, find_char_exec, from_chars, slice_range, split_once, to_chars};

verus! {

/// How a notification presents itself.
#[derive(Debug, Clone, Copy, PartialEq, Eq, Structural)]
pub enum NotificationCategory {
    /// A task finished.
    Complete,
    /// A task failed.
    Error,
    /// The agent asks for a confirmation.
    Request,
}

/// Events of the bridge, consumed on the main thread.
#[derive(Debug)]
pub enum BridgeEvent {
    /// The dsh plugin asks for a notification. `session_id` names the dsh
    /// session it came from, when the plugin reports one.
    Notify {
        title: String,
        body: String,
        category: NotificationCategory,
        session_id: Option<String>,
    },
    /// dsh switched its current project directory.
    SwitchProject { path: PathBuf },
    /// dsh asks Zap to open the file explorer at a project directory.
    OpenFileExplorer { path: PathBuf },
    /// dsh asks Zap to open a file or directory.
    OpenFile { path: PathBuf },
    /// dsh asks Zap to open the code review panel, at a file when one is given.
    OpenCodeReview { path: Option<String> },
    /// The runtime is ready at `url`.
    Ready { url: String },
    /// The runtime came back at `url` after a crash.
    Restarted { url: String },
    /// The runtime failed.
    Failed { error: String },
}

/// A copy of an optional string.
pub fn copy_opt_string(s: &Option<String>) -> (r: Option<String>)
    ensures
        r == *s,
{
    match s {
        Some(v) => Some(v.clone()),
        None => None,
    }
}

impl BridgeEvent {
    /// A field-for-field copy of the event.
    pub fn copy(&self) -> (r: BridgeEvent)
        ensures
            r == *self,
    {
        match self {
            BridgeEvent::Notify { title, body, category, session_id } => BridgeEvent::Notify {
                title: title.clone(),
                body: body.clone(),
                category: *category,
                session_id: copy_opt_string(session_id),
            },
            BridgeEvent::SwitchProject { path } => BridgeEvent::SwitchProject { path: path.clone() },
            BridgeEvent::OpenFileExplorer { path } => BridgeEvent::OpenFileExplorer {
                path: path.clone(),
            },
            BridgeEvent::OpenFile { path } => BridgeEvent::OpenFile { path: path.clone() },
            BridgeEvent::OpenCodeReview { path } => BridgeEvent::OpenCodeReview {
                path: copy_opt_string(path),
            },
            BridgeEvent::Ready { url } => BridgeEvent::Ready { url: url.clone() },
            BridgeEvent::Restarted { url } => BridgeEvent::Restarted { url: url.clone() },
            BridgeEvent::Failed { error } => BridgeEvent::Failed { error: error.clone() },
        }
    }
}

/// Events waiting for the main thread, oldest first.
pub struct PendingEvents {
    events: Vec<BridgeEvent>,
}

impl View for PendingEvents {
    type V = Seq<BridgeEvent>;

    closed spec fn view(&self) -> Seq<BridgeEvent> {
        self.events@
    }
}

impl PendingEvents {
    /// An empty queue.
    pub fn new() -> (r: PendingEvents)
        ensures
            r@ == Seq::<BridgeEvent>::empty(),
    {
        PendingEvents { events: Vec::new() }
    }

    /// Queues `event` and hands it back, so that the caller can act on it
    /// at once as well.
    pub fn push_event(&mut self, event: BridgeEvent) -> (r: BridgeEvent)
        ensures
            r == event,
            final(self)@ == old(self)@.push(event),
    {
        let stored = event.copy();
        self.events.push(stored);
        event
    }

    /// Takes every queued event, oldest first, and leaves the queue empty.
    pub fn drain(&mut self) -> (r: Vec<BridgeEvent>)
        ensures
            r@ == old(self)@,
            final(self)@ == Seq::<BridgeEvent>::empty(),
    {
        let mut taken: Vec<BridgeEvent> = Vec::new();
        std::mem::swap(&mut taken, &mut self.events);
        taken
    }

    /// Empties the queue.
    pub fn clear(&mut self)
        ensures
            final(self)@ == Seq::<BridgeEvent>::empty(),
    {
        self.events = Vec::new();
    }

    /// The number of queued events.
    pub fn len(&self) -> (r: usize)
        ensures
            r == self@.len(),
    {
        self.events.len()
    }

    /// The queued event at `i`.
    pub fn get(&self, i: usize) -> (r: &BridgeEvent)
        requires
            i < self@.len(),
        ensures
            *r == self@[i as int],
    {
        &self.events[i]
    }
}

/// Whether events wait to be drained.
pub fn has_pending_events(queue: &PendingEvents) -> (r: bool)
    ensures
        r == (queue@.len() > 0),
{
    queue.len() > 0
}

/// The method of a message: the text before its first newline.
pub open spec fn ipc_method(payload: Seq<char>) -> Seq<char> {
    match split_once(payload, '\n') {
        Some((method, _)) => method,
        None => payload,
    }
}

/// The parameters of a message: the text after its second newline, or `{}`
/// where the message has fewer than three parts.
pub open spec fn ipc_params(payload: Seq<char>) -> Seq<char> {
    match split_once(payload, '\n') {
        Some((_, rest)) => match split_once(rest, '\n') {
            Some((_, params)) => params,
            None => seq!['{', '}'],
        },
        None => seq!['{', '}'],
    }
}

/// The path-bearing requests that need the file system before they become events.
#[derive(Debug, Clone, Copy, PartialEq, Eq, Structural)]
pub enum PathTarget {
    /// `zap.switch_project`: an existing directory.
    SwitchProject,
    /// `zap.open_file_explorer`: an existing directory.
    OpenFileExplorer,
    /// `zap.open_file`: an existing file or directory.
    OpenFile,
}

/// What a `zap.*` message asks for.
#[derive(Debug)]
pub enum ZapIpcPlan {
    /// Nothing: unknown method or rejected parameters.
    Ignore,
    /// Resolve `raw` on disk, then build the event with [`resolve_path_event`].
    Resolve { target: PathTarget, raw: String },
    /// Queue this event as it is.
    Emit(BridgeEvent),
}

/// `s` names an absolute path (it begins at the root).
pub open spec fn is_absolute_path(s: Seq<char>) -> bool {
    s.len() > 0 && s[0] == '/'
}

/// The category a notification asks for.
pub open spec fn category_of(field: JsonFieldView) -> NotificationCategory {
    match field {
        JsonFieldView::Str(s) => if s == "error"@ {
            NotificationCategory::Error
        } else if s == "confirm"@ {
            NotificationCategory::Request
        } else {
            NotificationCategory::Complete
        },
        _ => NotificationCategory::Complete,
    }
}

/// A string field, or the empty string where the key holds no string.
pub open spec fn str_or_empty(field: JsonFieldView) -> Seq<char> {
    match field {
        JsonFieldView::Str(s) => s,
        _ => Seq::empty(),
    }
}

/// The meaning of a message, over the views of the plan's parts.
pub open spec fn zap_ipc_plan_spec(payload: Seq<char>, plan: ZapIpcPlan) -> bool {
    let params = ipc_params(payload);
    plan_for_fields(
        ipc_method(payload),
        json_object_field(params, "path"@),
        json_object_field(params, "title"@),
        json_object_field(params, "body"@),
        json_object_field(params, "category"@),
        json_object_field(params, "session_id"@),
        plan,
    )
}

/// The plan for a message with `method` whose parameters hold the given
/// `path`, `title`, `body`, `category` and `session_id` fields.
pub open spec fn plan_for_fields(
    method: Seq<char>,
    path: JsonFieldView,
    title_field: JsonFieldView,
    body_field: JsonFieldView,
    category_field: JsonFieldView,
    session: JsonFieldView,
    plan: ZapIpcPlan,
) -> bool {
    if method == "zap.switch_project"@ || method == "zap.open_file_explorer"@ || method
        == "zap.open_file"@ {
        let target = if method == "zap.switch_project"@ {
            PathTarget::SwitchProject
        } else if method == "zap.open_file_explorer"@ {
            PathTarget::OpenFileExplorer
        } else {
            PathTarget::OpenFile
        };
        match path {
            JsonFieldView::Str(raw) => plan matches ZapIpcPlan::Resolve { target: t, raw: r } && t
                == target && r@ == raw,
            _ => plan is Ignore,
        }
    } else if method == "zap.open_code_review"@ {
        match path {
            JsonFieldView::Missing | JsonFieldView::Null => plan matches ZapIpcPlan::Emit(
                BridgeEvent::OpenCodeReview { path: None },
            ),
            JsonFieldView::Str(raw) => if is_absolute_path(raw) {
                plan matches ZapIpcPlan::Emit(BridgeEvent::OpenCodeReview { path: Some(p) }) && p@
                    == raw
            } else {
                plan is Ignore
            },
            _ => plan is Ignore,
        }
    } else if method == "zap.notify"@ {
        let title = str_or_empty(title_field);
        let body = str_or_empty(body_field);
        let category = category_of(category_field);
        if title.len() == 0 {
            plan is Ignore
        } else {
            plan matches ZapIpcPlan::Emit(
                BridgeEvent::Notify { title: t, body: b, category: c, session_id: sid },
            ) && t@ == title && b@ == body && c == category && match session {
                JsonFieldView::Str(s) => if s.len() > 0 {
                    sid matches Some(v) && v@ == s
                } else {
                    sid is None
                },
                _ => sid is None,
            }
        }
    } else {
        plan is Ignore
    }
}

/// The methods the bridge answers.
pub open spec fn is_bridge_method(method: Seq<char>) -> bool {
    method == "zap.switch_project"@ || method == "zap.open_file_explorer"@ || method
        == "zap.open_file"@ || method == "zap.open_code_review"@ || method == "zap.notify"@
}

/// Each path method asks for its own kind of event, about the path it
/// names: `zap.switch_project` switches the project, `zap.open_file_explorer`
/// opens the file explorer and `zap.open_file` opens the file; a message of
/// one of them whose `path` is a string is to be resolved on disk as that
/// kind and that path, whatever its other fields hold.
pub proof fn law_path_methods_keep_their_target(
    payload: Seq<char>,
    raw: Seq<char>,
    plan: ZapIpcPlan,
)
    requires
        zap_ipc_plan_spec(payload, plan),
        json_object_field(ipc_params(payload), "path"@) == JsonFieldView::Str(raw),
    ensures
        ipc_method(payload) == "zap.switch_project"@ ==> (plan matches ZapIpcPlan::Resolve {
            target: PathTarget::SwitchProject,
            raw: r,
        } && r@ == raw),
        ipc_method(payload) == "zap.open_file_explorer"@ ==> (plan matches ZapIpcPlan::Resolve {
            target: PathTarget::OpenFileExplorer,
            raw: r,
        } && r@ == raw),
        ipc_method(payload) == "zap.open_file"@ ==> (plan matches ZapIpcPlan::Resolve {
            target: PathTarget::OpenFile,
            raw: r,
        } && r@ == raw),
{
    reveal_strlit("zap.switch_project");
    reveal_strlit("zap.open_file_explorer");
    reveal_strlit("zap.open_file");
    assert("zap.switch_project"@.len() == 18);
    assert("zap.open_file_explorer"@.len() == 22);
    assert("zap.open_file"@.len() == 13);
}

/// The same for the plan of [`plan_from_fields`]: with a string `path`,
/// each path method is resolved as its own kind, on that path.
pub proof fn law_path_fields_keep_their_target(
    method: Seq<char>,
    raw: Seq<char>,
    title_field: JsonFieldView,
    body_field: JsonFieldView,
    category_field: JsonFieldView,
    session: JsonFieldView,
    plan: ZapIpcPlan,
)
    requires
        plan_for_fields(
            method,
            JsonFieldView::Str(raw),
            title_field,
            body_field,
            category_field,
            session,
            plan,
        ),
    ensures
        method == "zap.switch_project"@ ==> (plan matches ZapIpcPlan::Resolve {
            target: PathTarget::SwitchProject,
            raw: r,
        } && r@ == raw),
        method == "zap.open_file_explorer"@ ==> (plan matches ZapIpcPlan::Resolve {
            target: PathTarget::OpenFileExplorer,
            raw: r,
        } && r@ == raw),
        method == "zap.open_file"@ ==> (plan matches ZapIpcPlan::Resolve {
            target: PathTarget::OpenFile,
            raw: r,
        } && r@ == raw),
{
    reveal_strlit("zap.switch_project");
    reveal_strlit("zap.open_file_explorer");
    reveal_strlit("zap.open_file");
    assert("zap.switch_project"@.len() == 18);
    assert("zap.open_file_explorer"@.len() == 22);
    assert("zap.open_file"@.len() == 13);
}

/// A message with any other method is ignored: no event is queued and the
/// workspace directory stays as it was.
pub proof fn law_unknown_method_changes_nothing(
    payload: Seq<char>,
    plan: ZapIpcPlan,
    r: Option<BridgeEvent>,
    queue_pre: Seq<BridgeEvent>,
    queue_post: Seq<BridgeEvent>,
    ws_pre: Option<PathBuf>,
    ws_post: Option<PathBuf>,
)
    requires
        !is_bridge_method(ipc_method(payload)),
        zap_ipc_plan_spec(payload, plan),
        plan_applied(plan, r, queue_pre, queue_post, ws_pre, ws_post),
    ensures
        r is None,
        queue_post == queue_pre,
        ws_post == ws_pre,
{
}

/// A notification without a title is refused the same way.
pub proof fn law_untitled_notification_changes_nothing(
    payload: Seq<char>,
    plan: ZapIpcPlan,
    r: Option<BridgeEvent>,
    queue_pre: Seq<BridgeEvent>,
    queue_post: Seq<BridgeEvent>,
    ws_pre: Option<PathBuf>,
    ws_post: Option<PathBuf>,
)
    requires
        ipc_method(payload) == "zap.notify"@,
        str_or_empty(json_object_field(ipc_params(payload), "title"@)).len() == 0,
        zap_ipc_plan_spec(payload, plan),
        plan_applied(plan, r, queue_pre, queue_post, ws_pre, ws_post),
    ensures
        r is None,
        queue_post == queue_pre,
        ws_post == ws_pre,
{
    assert("zap.notify"@ != "zap.switch_project"@) by {
        reveal_strlit("zap.notify");
        reveal_strlit("zap.switch_project");
        assert("zap.notify"@.len() != "zap.switch_project"@.len());
    }
    assert("zap.notify"@ != "zap.open_file_explorer"@) by {
        reveal_strlit("zap.notify");
        reveal_strlit("zap.open_file_explorer");
        assert("zap.notify"@.len() != "zap.open_file_explorer"@.len());
    }
    assert("zap.notify"@ != "zap.open_file"@) by {
        reveal_strlit("zap.notify");
        reveal_strlit("zap.open_file");
        assert("zap.notify"@.len() != "zap.open_file"@.len());
    }
    assert("zap.notify"@ != "zap.open_code_review"@) by {
        reveal_strlit("zap.notify");
        reveal_strlit("zap.open_code_review");
        assert("zap.notify"@.len() != "zap.open_code_review"@.len());
    }
}

/// Whether `a` holds exactly the characters of `lit`.
fn is_lit(a: &[char], lit: &str) -> (r: bool)
    ensures
        r == (a@ == lit@),
{
    let l = to_chars(lit);
    crate::text::chars_eq(a, &l)
}

/// Reads a string-valued field; `None` where the key holds no string.
fn field_str(field: JsonField) -> (r: Option<String>)
    ensures
        match field@ {
            JsonFieldView::Str(s) => r matches Some(v) && v@ == s,
            _ => r is None,
        },
{
    match field {
        JsonField::Str(s) => Some(s),
        _ => None,
    }
}

/// Decides what a `zap.*` message (method, id and parameters separated by
/// newlines) asks for. The message id is not used.
pub fn plan_zap_ipc(payload: &str) -> (plan: ZapIpcPlan)
    ensures
        zap_ipc_plan_spec(payload@, plan),
{
    let chars = to_chars(payload);
    let n = chars.len();
    let (method, params) = match find_char_exec(&chars, '\n') {
        Some(i) => {
            assert(i < n);
            let rest = slice_range(&chars, i + 1, n);
            let params = match find_char_exec(&rest, '\n') {
                Some(j) => from_chars(&slice_range(&rest, j + 1, rest.len())),
                None => from_chars(&['{', '}']),
            };
            proof {
                assert(rest@ == chars@.skip(i + 1));
            }
            (slice_range(&chars, 0, i), params)
        },
        None => (chars.clone(), from_chars(&['{', '}'])),
    };
    proof {
        assert(method@ == ipc_method(payload@)) by {
            if let Some(i) = find_char(payload@, '\n') {
                assert(chars@.subrange(0, i) == payload@.take(i));
            }
        }
        assert(params@ == ipc_params(payload@)) by {
            if let Some(i) = find_char(payload@, '\n') {
                let rest = payload@.skip(i + 1);
                if let Some(j) = find_char(rest, '\n') {
                    assert(rest.subrange(j + 1, rest.len() as int) == rest.skip(j + 1));
                }
            }
        }
    }
    let params_text = params.as_str();
    plan_from_fields(
        &method,
        json_field(params_text, "path"),
        json_field(params_text, "title"),
        json_field(params_text, "body"),
        json_field(params_text, "category"),
        json_field(params_text, "session_id"),
    )
}

/// Decides the plan of a message with `method` from the fields that its
/// parameters hold, as [`plan_for_fields`] says.
pub fn plan_from_fields(
    method: &[char],
    path: JsonField,
    title_field: JsonField,
    body_field: JsonField,
    category_field: JsonField,
    session: JsonField,
) -> (plan: ZapIpcPlan)
    ensures
        plan_for_fields(method@, path@, title_field@, body_field@, category_field@, session@, plan),
{
    let is_switch = is_lit(method, "zap.switch_project");
    let is_explorer = is_lit(method, "zap.open_file_explorer");
    let is_open_file = is_lit(method, "zap.open_file");
    if is_switch || is_explorer || is_open_file {
        let target = if is_switch {
            PathTarget::SwitchProject
        } else if is_explorer {
            PathTarget::OpenFileExplorer
        } else {
            PathTarget::OpenFile
        };
        match field_str(path) {
            Some(raw) => ZapIpcPlan::Resolve { target, raw },
            None => ZapIpcPlan::Ignore,
        }
    } else if is_lit(method, "zap.open_code_review") {
        match path {
            JsonField::Missing | JsonField::Null => ZapIpcPlan::Emit(
                BridgeEvent::OpenCodeReview { path: None },
            ),
            JsonField::Str(raw) => {
                let raw_chars = to_chars(raw.as_str());
                if raw_chars.len() > 0 && raw_chars[0] == '/' {
                    ZapIpcPlan::Emit(BridgeEvent::OpenCodeReview { path: Some(raw) })
                } else {
                    ZapIpcPlan::Ignore
                }
            },
            _ => ZapIpcPlan::Ignore,
        }
    } else if is_lit(method, "zap.notify") {
        let title = match field_str(title_field) {
            Some(t) => t,
            None => String::new(),
        };
        let body = match field_str(body_field) {
            Some(b) => b,
            None => String::new(),
        };
        let title_chars = to_chars(title.as_str());
        if title_chars.len() == 0 {
            return ZapIpcPlan::Ignore;
        }
        let category = match field_str(category_field) {
            Some(c) => {
                let cc = to_chars(c.as_str());
                if is_lit(&cc, "error") {
                    NotificationCategory::Error
                } else if is_lit(&cc, "confirm") {
                    NotificationCategory::Request
                } else {
                    NotificationCategory::Complete
                }
            },
            None => NotificationCategory::Complete,
        };
        let session_id = match field_str(session) {
            Some(s) => {
                let sc = to_chars(s.as_str());
                if sc.len() > 0 {
                    Some(s)
                } else {
                    None
                }
            },
            None => None,
        };
        ZapIpcPlan::Emit(BridgeEvent::Notify { title, body, category, session_id })
    } else {
        ZapIpcPlan::Ignore
    }
}

/// The event a path request becomes once the caller has resolved `raw` on
/// disk: `canonical` is the canonical path (`None` where resolution failed)
/// and `is_dir` whether it names a directory. Directory requests need a
/// directory; `zap.open_file` takes files and directories alike.
pub fn resolve_path_event(target: PathTarget, canonical: Option<PathBuf>, is_dir: bool) -> (r:
    Option<BridgeEvent>)
    ensures
        match canonical {
            None => r is None,
            Some(p) => match target {
                PathTarget::SwitchProject => if is_dir {
                    r == Some(BridgeEvent::SwitchProject { path: p })
                } else {
                    r is None
                },
                PathTarget::OpenFileExplorer => if is_dir {
                    r == Some(BridgeEvent::OpenFileExplorer { path: p })
                } else {
                    r is None
                },
                PathTarget::OpenFile => r == Some(BridgeEvent::OpenFile { path: p }),
            },
        },
{
    match canonical {
        None => None,
        Some(path) => match target {
            PathTarget::SwitchProject => if is_dir {
                Some(BridgeEvent::SwitchProject { path })
            } else {
                None
            },
            PathTarget::OpenFileExplorer => if is_dir {
                Some(BridgeEvent::OpenFileExplorer { path })
            } else {
                None
            },
            PathTarget::OpenFile => Some(BridgeEvent::OpenFile { path }),
        },
    }
}

/// `std::path::Path::canonicalize` of `raw`: `None` where the path does not
/// exist or cannot be resolved, else the canonical path as the file system
/// gives it. The result depends on the file system, so nothing is promised of
/// it; that it is absolute holds on every platform, but that is a property of
/// an opaque `PathBuf` and is not stated.
#[verifier::external_body]
fn canonicalize(raw: &str) -> (r: Option<PathBuf>) {
    std::path::Path::new(raw).canonicalize().ok()
}

/// `std::path::Path::is_dir`: whether `path` names a directory now. The
/// result depends on the file system, so nothing is promised of it.
#[verifier::external_body]
fn is_dir(path: &PathBuf) -> (r: bool) {
    path.is_dir()
}

/// The event of a path request has the kind that the request asked for.
pub open spec fn event_fits_target(target: PathTarget, e: BridgeEvent) -> bool {
    match target {
        PathTarget::SwitchProject => e is SwitchProject,
        PathTarget::OpenFileExplorer => e is OpenFileExplorer,
        PathTarget::OpenFile => e is OpenFile,
    }
}

/// The workspace directory after an event: project switches and file
/// explorer requests make their directory the one dsh works in.
pub open spec fn workspace_after(ws: Option<PathBuf>, e: BridgeEvent) -> Option<PathBuf> {
    match e {
        BridgeEvent::SwitchProject { path } => Some(path),
        BridgeEvent::OpenFileExplorer { path } => Some(path),
        _ => ws,
    }
}

/// What carrying out `plan` did: `r` is the event queued (if any), with the
/// queue and the workspace directory before and after.
pub open spec fn plan_applied(
    plan: ZapIpcPlan,
    r: Option<BridgeEvent>,
    queue_pre: Seq<BridgeEvent>,
    queue_post: Seq<BridgeEvent>,
    ws_pre: Option<PathBuf>,
    ws_post: Option<PathBuf>,
) -> bool {
    &&& match plan {
        ZapIpcPlan::Ignore => r is None,
        ZapIpcPlan::Emit(e) => r == Some(e),
        ZapIpcPlan::Resolve { target, raw: _ } => match r {
            Some(e) => event_fits_target(target, e),
            None => true,
        },
    }
    &&& match r {
        Some(e) => queue_post == queue_pre.push(e) && ws_post == workspace_after(ws_pre, e),
        None => queue_post == queue_pre && ws_post == ws_pre,
    }
}

/// Queues `e` and, for a project switch or a file explorer request, makes
/// its directory the one dsh works in. Hands the event back.
fn emit_event(queue: &mut PendingEvents, workspace: &mut WorkspaceDir, e: BridgeEvent) -> (r:
    BridgeEvent)
    ensures
        r == e,
        final(queue)@ == old(queue)@.push(e),
        final(workspace)@ == workspace_after(old(workspace)@, e),
{
    match &e {
        BridgeEvent::SwitchProject { path } => {
            workspace.set_workspace_dir(path.clone());
        },
        BridgeEvent::OpenFileExplorer { path } => {
            workspace.set_workspace_dir(path.clone());
        },
        _ => {},
    }
    queue.push_event(e)
}

/// Carries out a plan: resolves a path request on disk, queues the event and
/// records a new project directory.
pub fn apply_zap_plan(queue: &mut PendingEvents, workspace: &mut WorkspaceDir, plan: ZapIpcPlan) -> (r:
    Option<BridgeEvent>)
    ensures
        plan_applied(plan, r, old(queue)@, final(queue)@, old(workspace)@, final(workspace)@),
{
    match plan {
        ZapIpcPlan::Ignore => None,
        ZapIpcPlan::Emit(e) => Some(emit_event(queue, workspace, e)),
        ZapIpcPlan::Resolve { target, raw } => {
            let canonical = canonicalize(raw.as_str());
            let dir = match &canonical {
                Some(p) => match target {
                    PathTarget::OpenFile => false,
                    _ => is_dir(p),
                },
                None => false,
            };
            match resolve_path_event(target, canonical, dir) {
                Some(e) => Some(emit_event(queue, workspace, e)),
                None => None,
            }
        },
    }
}

/// Handles a `zap.*` message from the browser-side plugin: decides what it
/// asks for ([`plan_zap_ipc`]), then carries it out ([`apply_zap_plan`]).
/// Unknown methods and rejected parameters give `None` and change nothing.
pub fn handle_zap_ipc(queue: &mut PendingEvents, workspace: &mut WorkspaceDir, payload: &str) -> (r:
    Option<BridgeEvent>)
    ensures
        exists|plan: ZapIpcPlan|
            zap_ipc_plan_spec(payload@, plan) && #[trigger] plan_applied(
                plan,
                r,
                old(queue)@,
                final(queue)@,
                old(workspace)@,
                final(workspace)@,
            ),
{
    let plan = plan_zap_ipc(payload);
    let ghost p = plan;
    let r = apply_zap_plan(queue, workspace, plan);
    proof {
        assert(plan_applied(p, r, old(queue)@, queue@, old(workspace)@, workspace@));
    }
    r
}

} // verus!
