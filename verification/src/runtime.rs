//! The lifecycle state machine of the dsh web runtime.
//!
//! The runtime owns at most one dsh child process. Process handles, signals
//! and clocks belong to the caller: it tells the state machine what happened
//! (a start finished, the child exited, time passed) and carries out what the
//! state machine decides (terminate the child it holds, schedule a restart).
//!
//! Times are milliseconds on a monotonic clock chosen by the caller.

use vstd::prelude::*;

verus! {

/// Consecutive crashes tolerated before the runtime gives up restarting.
pub const MAX_RESTARTS: u8 = 3;

/// A crash this long (in milliseconds) after the last successful start counts
/// as a crash after a healthy run, and the crash count starts over.
pub const CRASH_COUNT_RESET_AFTER_MS: u64 = 300000;

/// The state the runtime presents to the UI.
#[derive(Debug, Clone, Copy, PartialEq, Eq, Structural)]
pub enum DshRuntimeStatus {
    Stopped,
    Starting,
    Ready,
    Failed,
}

/// What one poll of the child process found.
#[derive(Debug, Clone, Copy, PartialEq, Eq, Structural)]
pub enum PollResult {
    /// The process is still running (or there is none).
    Running,
    /// The process exited after a stop was requested; it is not restarted.
    StoppedByRequest,
    /// The process crashed and should be restarted.
    Crashed,
    /// The process crashed more often in a row than allowed; no restart.
    GiveUp,
}

/// The dsh runtime singleton.
pub struct DshRuntime {
    pub status: DshRuntimeStatus,
    /// The web UI address of the adopted child.
    pub url: Option<String>,
    /// Whether a child process is held (the caller holds its handle).
    pub has_child: bool,
    /// Crashes in a row; cleared only by a start the user asked for, so that a
    /// restart sequence reaches [`MAX_RESTARTS`].
    pub consecutive_crashes: u8,
    /// A stop was requested; a start that completes afterwards is discarded.
    pub stopping: bool,
    /// Start generation, raised by every start or restart. A start that
    /// completes with an older generation is discarded.
    pub generation: u64,
    /// When the last child was adopted.
    pub last_success_at: Option<u64>,
    /// Why the last start failed; cleared by a new start and by a stop.
    pub error: Option<String>,
    /// A stop waits until no dsh pane is left.
    pub stop_pending: bool,
}

/// `post` is `pre` after [`DshRuntime::begin_start`], which returned `generation`.
pub open spec fn begin_start_rel(pre: DshRuntime, post: DshRuntime, generation: u64) -> bool {
    &&& post == DshRuntime {
        stopping: false,
        stop_pending: false,
        consecutive_crashes: 0,
        generation: (pre.generation + 1) as u64,
        error: None,
        status: DshRuntimeStatus::Starting,
        ..pre
    }
    &&& generation == pre.generation + 1
}

/// `post` is `pre` after [`DshRuntime::begin_restart`], which returned `generation`.
pub open spec fn begin_restart_rel(pre: DshRuntime, post: DshRuntime, generation: u64) -> bool {
    &&& post == DshRuntime {
        generation: (pre.generation + 1) as u64,
        error: None,
        status: DshRuntimeStatus::Starting,
        ..pre
    }
    &&& generation == pre.generation + 1
}

/// Whether a start that finished with `generation` is still wanted.
pub open spec fn adoptable(pre: DshRuntime, generation: u64) -> bool {
    !pre.stopping && pre.generation == generation
}

/// `post` is `pre` after [`DshRuntime::adopt_child`] with `url`, `generation`
/// and the time `now`, which returned `adopted`.
pub open spec fn adopt_rel(
    pre: DshRuntime,
    post: DshRuntime,
    url: Seq<char>,
    generation: u64,
    now: u64,
    adopted: bool,
) -> bool {
    &&& adopted == adoptable(pre, generation)
    &&& !adopted ==> post == pre
    &&& adopted ==> post == DshRuntime {
        has_child: true,
        url: post.url,
        stopping: false,
        last_success_at: Some(now),
        status: DshRuntimeStatus::Ready,
        ..pre
    }
    &&& adopted ==> (post.url matches Some(u) && u@ == url)
}

/// `post` is `pre` after [`DshRuntime::request_stop`].
pub open spec fn request_stop_rel(pre: DshRuntime, post: DshRuntime) -> bool {
    post == DshRuntime {
        stopping: true,
        stop_pending: false,
        has_child: false,
        status: DshRuntimeStatus::Stopped,
        url: None,
        consecutive_crashes: 0,
        error: None,
        ..pre
    }
}

/// `post` is `pre` after [`DshRuntime::poll_pending_stop`] with `has_dsh_pane`.
pub open spec fn poll_pending_stop_rel(pre: DshRuntime, post: DshRuntime, has_dsh_pane: bool) -> bool {
    if !pre.stop_pending || has_dsh_pane {
        post == pre
    } else {
        request_stop_rel(pre, post)
    }
}

/// The crash count after a crash at `now`: it starts over at one after a
/// healthy run, and goes up by one otherwise.
pub open spec fn crash_count_after(pre: DshRuntime, now: u64) -> int {
    match pre.last_success_at {
        Some(t) => if now - t > CRASH_COUNT_RESET_AFTER_MS {
            1
        } else {
            pre.consecutive_crashes + 1
        },
        None => pre.consecutive_crashes + 1,
    }
}

/// `post` and `r` are `pre` and the result after [`DshRuntime::poll_child`],
/// where `exited` says whether the held child has exited by `now`.
pub open spec fn poll_child_rel(
    pre: DshRuntime,
    post: DshRuntime,
    exited: bool,
    now: u64,
    r: PollResult,
) -> bool {
    if !pre.has_child || !exited {
        post == pre && r == PollResult::Running
    } else if pre.stopping {
        post == DshRuntime { has_child: false, ..pre } && r == PollResult::StoppedByRequest
    } else {
        let count = crash_count_after(pre, now);
        if count > MAX_RESTARTS {
            post == DshRuntime {
                has_child: false,
                consecutive_crashes: count as u8,
                status: DshRuntimeStatus::Failed,
                ..pre
            } && r == PollResult::GiveUp
        } else {
            post == DshRuntime {
                has_child: false,
                consecutive_crashes: count as u8,
                status: DshRuntimeStatus::Stopped,
                ..pre
            } && r == PollResult::Crashed
        }
    }
}

/// Whether a crash at `now` can be counted without leaving `u8`.
pub open spec fn poll_child_countable(pre: DshRuntime, exited: bool, now: u64) -> bool {
    pre.has_child && exited && !pre.stopping ==> crash_count_after(pre, now) <= u8::MAX
}

/// A start the user asked for is adopted when it completes, provided nothing
/// else happened in between: the runtime is then `Ready` with the child.
pub proof fn law_start_then_adopt(
    s0: DshRuntime,
    s1: DshRuntime,
    g: u64,
    s2: DshRuntime,
    url: Seq<char>,
    now: u64,
    adopted: bool,
)
    requires
        begin_start_rel(s0, s1, g),
        adopt_rel(s1, s2, url, g, now, adopted),
    ensures
        adopted,
        s2.status == DshRuntimeStatus::Ready,
        s2.has_child,
        s2.generation == g,
{
}

/// A start that completes with a generation other than the current one is
/// discarded and changes nothing.
pub proof fn law_stale_start_is_discarded(
    s0: DshRuntime,
    s1: DshRuntime,
    url: Seq<char>,
    g: u64,
    now: u64,
    adopted: bool,
)
    requires
        g != s0.generation,
        adopt_rel(s0, s1, url, g, now, adopted),
    ensures
        !adopted,
        s1 == s0,
{
}

/// Each start or restart supersedes every earlier one: a start that
/// completes with an earlier generation is discarded.
pub proof fn law_restart_supersedes_earlier_starts(
    s0: DshRuntime,
    s1: DshRuntime,
    g: u64,
    old_g: u64,
    s2: DshRuntime,
    url: Seq<char>,
    now: u64,
    adopted: bool,
)
    requires
        begin_start_rel(s0, s1, g) || begin_restart_rel(s0, s1, g),
        old_g <= s0.generation,
        adopt_rel(s1, s2, url, old_g, now, adopted),
    ensures
        g > s0.generation,
        !adopted,
        s2 == s1,
{
}

/// After a stop, a start that was still in flight is discarded: the runtime
/// stays `Stopped` without a child.
pub proof fn law_stop_then_adopt_is_discarded(
    s0: DshRuntime,
    s1: DshRuntime,
    s2: DshRuntime,
    url: Seq<char>,
    g: u64,
    now: u64,
    adopted: bool,
)
    requires
        request_stop_rel(s0, s1),
        adopt_rel(s1, s2, url, g, now, adopted),
    ensures
        !adopted,
        s2.status == DshRuntimeStatus::Stopped,
        !s2.has_child,
{
}

/// A pending stop waits while a dsh pane is left, stays armed meanwhile, and
/// stops the runtime once no pane is left.
pub proof fn law_pending_stop_waits_for_last_pane(
    s0: DshRuntime,
    s1: DshRuntime,
    s2: DshRuntime,
    s3: DshRuntime,
)
    requires
        s1 == (DshRuntime { stop_pending: true, ..s0 }),
        poll_pending_stop_rel(s1, s2, true),
        poll_pending_stop_rel(s2, s3, false),
    ensures
        s2 == s1,
        s2.stop_pending,
        s3.status == DshRuntimeStatus::Stopped,
        !s3.stop_pending,
        !s3.has_child,
        s3.stopping,
{
}

/// A new start cancels a pending stop: the next poll leaves the runtime alone
/// even with no dsh pane.
pub proof fn law_start_cancels_pending_stop(
    s0: DshRuntime,
    s1: DshRuntime,
    g: u64,
    s2: DshRuntime,
)
    requires
        s0.stop_pending,
        begin_start_rel(s0, s1, g),
        poll_pending_stop_rel(s1, s2, false),
    ensures
        s2 == s1,
        s2.status == DshRuntimeStatus::Starting,
{
}

/// An unexpected exit gives up exactly when the crash count passes
/// [`MAX_RESTARTS`]; below that it asks for a restart. An exit after a stop
/// request is never counted.
pub proof fn law_give_up_after_max_restarts(
    s0: DshRuntime,
    s1: DshRuntime,
    now: u64,
    r: PollResult,
)
    requires
        s0.has_child,
        poll_child_rel(s0, s1, true, now, r),
    ensures
        s0.stopping ==> r == PollResult::StoppedByRequest && s1.consecutive_crashes
            == s0.consecutive_crashes,
        !s0.stopping ==> (r == PollResult::GiveUp <==> crash_count_after(s0, now) > MAX_RESTARTS),
        !s0.stopping ==> (r == PollResult::Crashed <==> crash_count_after(s0, now)
            <= MAX_RESTARTS),
        r == PollResult::GiveUp ==> s1.status == DshRuntimeStatus::Failed,
        r == PollResult::Crashed ==> s1.status == DshRuntimeStatus::Stopped,
        !s1.has_child,
{
}

/// A crash more than [`CRASH_COUNT_RESET_AFTER_MS`] after the last adoption
/// counts as the first of a new series.
pub proof fn law_healthy_run_resets_crash_count(
    s0: DshRuntime,
    s1: DshRuntime,
    t: u64,
    now: u64,
    r: PollResult,
)
    requires
        s0.has_child,
        !s0.stopping,
        s0.last_success_at == Some(t),
        now - t > CRASH_COUNT_RESET_AFTER_MS,
        poll_child_rel(s0, s1, true, now, r),
    ensures
        s1.consecutive_crashes == 1,
        r == PollResult::Crashed,
{
}

/// One restart cycle: a restart, the adoption of its child at `adopt_at`,
/// and a poll at `crash_at` that finds the child exited.
pub open spec fn crash_cycle(
    pre: DshRuntime,
    post: DshRuntime,
    adopt_at: u64,
    crash_at: u64,
    r: PollResult,
) -> bool {
    exists|restarted: DshRuntime, adopted: DshRuntime, g: u64, url: Seq<char>|
        #![trigger begin_restart_rel(pre, restarted, g), adopt_rel(restarted, adopted, url, g, adopt_at, true)]
        begin_restart_rel(pre, restarted, g) && adopt_rel(restarted, adopted, url, g, adopt_at, true)
            && poll_child_rel(adopted, post, true, crash_at, r)
}

/// A cycle whose crash comes within [`CRASH_COUNT_RESET_AFTER_MS`] of its
/// adoption counts one more crash: a restart is asked for up to
/// [`MAX_RESTARTS`], then the runtime gives up and fails.
pub proof fn lemma_quick_crash_cycle(
    pre: DshRuntime,
    post: DshRuntime,
    adopt_at: u64,
    crash_at: u64,
    r: PollResult,
)
    requires
        crash_cycle(pre, post, adopt_at, crash_at, r),
        crash_at - adopt_at <= CRASH_COUNT_RESET_AFTER_MS,
        pre.consecutive_crashes < u8::MAX,
    ensures
        post.consecutive_crashes == pre.consecutive_crashes + 1,
        !post.has_child,
        !post.stopping,
        r == (if pre.consecutive_crashes + 1 > MAX_RESTARTS {
            PollResult::GiveUp
        } else {
            PollResult::Crashed
        }),
        post.status == (if pre.consecutive_crashes + 1 > MAX_RESTARTS {
            DshRuntimeStatus::Failed
        } else {
            DshRuntimeStatus::Stopped
        }),
{
    let (restarted, adopted, g, url) = choose|
        restarted: DshRuntime,
        adopted: DshRuntime,
        g: u64,
        url: Seq<char>,
    |
        #![trigger begin_restart_rel(pre, restarted, g), adopt_rel(restarted, adopted, url, g, adopt_at, true)]
        begin_restart_rel(pre, restarted, g) && adopt_rel(restarted, adopted, url, g, adopt_at, true)
            && poll_child_rel(adopted, post, true, crash_at, r);
    assert(crash_count_after(adopted, crash_at) == pre.consecutive_crashes + 1);
}

/// A series of restart cycles, each crashing within
/// [`CRASH_COUNT_RESET_AFTER_MS`] of its adoption: the `k`-th crash of the
/// series is counted as crash `c0 + k`, where `c0` is the count the series
/// starts from; each of them up to [`MAX_RESTARTS`] asks for a restart and
/// leaves the runtime `Stopped`, and each later one gives up and leaves it
/// `Failed`. From a fresh start (`c0 == 0`) that is three restarts, then the
/// give-up on the fourth crash.
pub proof fn law_quick_crashes_give_up_after_max_restarts(
    states: Seq<DshRuntime>,
    adopt_at: Seq<u64>,
    crash_at: Seq<u64>,
    results: Seq<PollResult>,
)
    requires
        states.len() == results.len() + 1,
        adopt_at.len() == results.len(),
        crash_at.len() == results.len(),
        states[0].consecutive_crashes + results.len() <= u8::MAX,
        forall|k: int|
            0 <= k < results.len() ==> #[trigger] crash_cycle(
                states[k],
                states[k + 1],
                adopt_at[k],
                crash_at[k],
                results[k],
            ),
        forall|k: int|
            0 <= k < results.len() ==> #[trigger] crash_at[k] - adopt_at[k]
                <= CRASH_COUNT_RESET_AFTER_MS,
    ensures
        forall|k: int|
            0 <= k < results.len() ==> {
                &&& #[trigger] states[k + 1].consecutive_crashes == states[0].consecutive_crashes
                    + k + 1
                &&& results[k] == (if states[0].consecutive_crashes + k + 1 > MAX_RESTARTS {
                    PollResult::GiveUp
                } else {
                    PollResult::Crashed
                })
                &&& states[k + 1].status == (if states[0].consecutive_crashes + k + 1
                    > MAX_RESTARTS {
                    DshRuntimeStatus::Failed
                } else {
                    DshRuntimeStatus::Stopped
                })
            },
    decreases results.len(),
{
    let n = results.len();
    if n > 0 {
        law_quick_crashes_give_up_after_max_restarts(
            states.take(n as int),
            adopt_at.take(n - 1),
            crash_at.take(n - 1),
            results.take(n - 1),
        );
        assert forall|k: int| 0 <= k < n implies {
            &&& #[trigger] states[k + 1].consecutive_crashes == states[0].consecutive_crashes + k
                + 1
            &&& results[k] == (if states[0].consecutive_crashes + k + 1 > MAX_RESTARTS {
                PollResult::GiveUp
            } else {
                PollResult::Crashed
            })
            &&& states[k + 1].status == (if states[0].consecutive_crashes + k + 1 > MAX_RESTARTS {
                DshRuntimeStatus::Failed
            } else {
                DshRuntimeStatus::Stopped
            })
        } by {
            let prev = states.take(n as int);
            if k < n - 1 {
                assert(prev[k + 1] == states[k + 1]);
                assert(results.take(n - 1)[k] == results[k]);
                assert(prev[k + 1].consecutive_crashes == prev[0].consecutive_crashes + k + 1);
            } else {
                if k > 0 {
                    assert(prev[(k - 1) + 1] == states[k]);
                    assert(prev[(k - 1) + 1].consecutive_crashes == prev[0].consecutive_crashes + (k
                        - 1) + 1);
                }
                assert(states[k].consecutive_crashes == states[0].consecutive_crashes + k);
                assert(crash_at[k] - adopt_at[k] <= CRASH_COUNT_RESET_AFTER_MS);
                lemma_quick_crash_cycle(states[k], states[k + 1], adopt_at[k], crash_at[k], results[k]);
            }
        }
    }
}

impl DshRuntime {
    /// A stopped runtime without a child.
    pub fn new() -> (r: DshRuntime)
        ensures
            r.status == DshRuntimeStatus::Stopped,
            r.url is None,
            !r.has_child,
            r.consecutive_crashes == 0,
            !r.stopping,
            r.generation == 0,
            r.last_success_at is None,
            r.error is None,
            !r.stop_pending,
    {
        DshRuntime {
            status: DshRuntimeStatus::Stopped,
            url: None,
            has_child: false,
            consecutive_crashes: 0,
            stopping: false,
            generation: 0,
            last_success_at: None,
            error: None,
            stop_pending: false,
        }
    }

    pub fn status(&self) -> (r: DshRuntimeStatus)
        ensures
            r == self.status,
    {
        self.status
    }

    pub fn url(&self) -> (r: Option<&str>)
        ensures
            match self.url {
                Some(u) => r matches Some(v) && v@ == u@,
                None => r is None,
            },
    {
        match &self.url {
            Some(u) => Some(u.as_str()),
            None => None,
        }
    }

    /// Why the last start or restart failed.
    pub fn error(&self) -> (r: Option<&str>)
        ensures
            match self.error {
                Some(e) => r matches Some(v) && v@ == e@,
                None => r is None,
            },
    {
        match &self.error {
            Some(e) => Some(e.as_str()),
            None => None,
        }
    }

    pub fn set_status(&mut self, status: DshRuntimeStatus)
        ensures
            *final(self) == (DshRuntime { status, ..*old(self) }),
    {
        self.status = status;
    }

    /// Records a failed start: the reason and the `Failed` state together.
    pub fn set_failed(&mut self, error: String)
        ensures
            *final(self) == (DshRuntime {
                error: Some(error),
                status: DshRuntimeStatus::Failed,
                ..*old(self)
            }),
    {
        self.error = Some(error);
        self.set_status(DshRuntimeStatus::Failed);
    }

    /// A start the user asked for: clears the stop request, the pending stop,
    /// the crash count and the last error, raises the generation and enters
    /// `Starting`. Returns the generation of this start.
    pub fn begin_start(&mut self) -> (r: u64)
        requires
            old(self).generation < u64::MAX,
        ensures
            begin_start_rel(*old(self), *final(self), r),
    {
        self.stopping = false;
        self.stop_pending = false;
        self.consecutive_crashes = 0;
        self.generation = self.generation + 1;
        self.error = None;
        self.set_status(DshRuntimeStatus::Starting);
        self.generation
    }

    /// A restart after a crash: raises the generation and enters `Starting`,
    /// keeping the crash count and the stop request.
    pub fn begin_restart(&mut self) -> (r: u64)
        requires
            old(self).generation < u64::MAX,
        ensures
            begin_restart_rel(*old(self), *final(self), r),
    {
        self.generation = self.generation + 1;
        self.error = None;
        self.set_status(DshRuntimeStatus::Starting);
        self.generation
    }

    /// A start of `generation` finished at `now` with a child serving `url`.
    /// The child is adopted unless a stop was requested or a newer start
    /// began; then nothing changes and the caller terminates the child. On
    /// adoption the caller terminates any child it still held.
    pub fn adopt_child(&mut self, url: String, generation: u64, now: u64) -> (r: bool)
        ensures
            adopt_rel(*old(self), *final(self), url@, generation, now, r),
    {
        if self.stopping || self.generation != generation {
            return false;
        }
        let ghost u = url@;
        self.has_child = true;
        self.url = Some(url);
        self.stopping = false;
        self.last_success_at = Some(now);
        self.set_status(DshRuntimeStatus::Ready);
        true
    }

    /// Stops the runtime: the caller terminates the child it holds.
    pub fn request_stop(&mut self)
        ensures
            request_stop_rel(*old(self), *final(self)),
    {
        self.stopping = true;
        self.stop_pending = false;
        self.has_child = false;
        self.set_status(DshRuntimeStatus::Stopped);
        self.url = None;
        self.consecutive_crashes = 0;
        self.error = None;
    }

    /// Arms a stop that waits until no dsh pane is left.
    pub fn mark_stop_pending(&mut self)
        ensures
            *final(self) == (DshRuntime { stop_pending: true, ..*old(self) }),
    {
        self.stop_pending = true;
    }

    /// Carries out a pending stop once no dsh pane is left; while a pane
    /// remains the stop stays armed.
    pub fn poll_pending_stop(&mut self, has_dsh_pane: bool)
        ensures
            poll_pending_stop_rel(*old(self), *final(self), has_dsh_pane),
    {
        if !self.stop_pending || has_dsh_pane {
            return;
        }
        self.stop_pending = false;
        self.request_stop();
    }

    /// Arms a pending stop and judges it at once: the runtime stops unless a
    /// dsh pane is open or a closed window that holds one can still be restored.
    pub fn stop_if_no_dsh_pane(&mut self, any_dsh_pane: bool, has_restorable_window: bool)
        ensures
            poll_pending_stop_rel(
                DshRuntime { stop_pending: true, ..*old(self) },
                *final(self),
                any_dsh_pane || has_restorable_window,
            ),
    {
        self.mark_stop_pending();
        self.poll_pending_stop(any_dsh_pane || has_restorable_window);
    }

    /// Judges one poll of the held child: `exited` says whether it has exited
    /// by `now`.
    pub fn poll_child(&mut self, exited: bool, now: u64) -> (r: PollResult)
        requires
            poll_child_countable(*old(self), exited, now),
        ensures
            poll_child_rel(*old(self), *final(self), exited, now, r),
    {
        if !self.has_child || !exited {
            return PollResult::Running;
        }
        self.has_child = false;
        if self.stopping {
            return PollResult::StoppedByRequest;
        }
        let healthy = match self.last_success_at {
            Some(t) => now > t && now - t > CRASH_COUNT_RESET_AFTER_MS,
            None => false,
        };
        if healthy {
            self.consecutive_crashes = 1;
        } else {
            self.consecutive_crashes = self.consecutive_crashes + 1;
        }
        if self.consecutive_crashes > MAX_RESTARTS {
            self.set_status(DshRuntimeStatus::Failed);
            return PollResult::GiveUp;
        }
        self.set_status(DshRuntimeStatus::Stopped);
        PollResult::Crashed
    }
}

impl Default for DshRuntime {
    fn default() -> (r: DshRuntime)
        ensures
            r.status == DshRuntimeStatus::Stopped,
            !r.has_child,
            r.generation == 0,
            !r.stopping,
            !r.stop_pending,
    {
        DshRuntime::new()
    }
}

} // verus!
