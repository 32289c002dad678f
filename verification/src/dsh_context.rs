//! Context that Zap shares with dsh: the project directory dsh works in, and
//! the recent commands of the active terminal (only with the privacy switch
//! on).

use std::path::PathBuf;
use vstd::prelude::*;

use crate::json::{json_field, json_object_field, JsonField, JsonFieldView};

verus! {

/// Recent terminal commands handed to dsh, at most.
pub const TERMINAL_CONTEXT_MAX: usize = 20;

/// The terminal context is refreshed at most this often (milliseconds).
pub const TERMINAL_CONTEXT_REFRESH_MS: u64 = 1000;

/// `std::path::PathBuf`, carried through as it is: a path that the file
/// system gave back, which need not be valid UTF-8.
#[verifier::external_type_specification]
#[verifier::external_body]
pub struct ExPathBuf(PathBuf);

/// `<PathBuf as Clone>::clone`: the copy holds the same path.
pub assume_specification[ <PathBuf as Clone>::clone ](p: &PathBuf) -> (r: PathBuf)
    ensures
        r == *p,
;

/// The project directory that dsh sessions start in (`DSH_CWD`).
pub struct WorkspaceDir {
    dir: Option<PathBuf>,
}

impl View for WorkspaceDir {
    type V = Option<PathBuf>;

    closed spec fn view(&self) -> Option<PathBuf> {
        self.dir
    }
}

impl WorkspaceDir {
    /// No directory yet: dsh uses its default.
    pub fn new() -> (r: WorkspaceDir)
        ensures
            r@ is None,
    {
        WorkspaceDir { dir: None }
    }

    /// Records the most recently opened project directory.
    pub fn set_workspace_dir(&mut self, path: PathBuf)
        ensures
            final(self)@ == Some(path),
    {
        self.dir = Some(path);
    }

    /// The recorded directory, if any.
    pub fn workspace_dir(&self) -> (r: Option<PathBuf>)
        ensures
            r == self@,
    {
        match &self.dir {
            Some(d) => Some(d.clone()),
            None => None,
        }
    }
}

/// The newest `max` commands of `history` (oldest first), newest first.
pub open spec fn newest_first(history: Seq<Seq<char>>, max: nat) -> Seq<Seq<char>> {
    let n = if history.len() < max {
        history.len()
    } else {
        max
    };
    Seq::new(n, |i: int| history[history.len() - 1 - i])
}

/// The views of a list of strings.
pub open spec fn views(v: Seq<String>) -> Seq<Seq<char>> {
    v.map_values(|s: String| s@)
}

/// The terminal commands staged for dsh, behind the privacy switch (off by
/// default: no command leaves Zap unless the user turned it on).
pub struct TerminalContext {
    enabled: bool,
    commands: Vec<String>,
    last_refresh: Option<u64>,
}

/// The mathematical form of a [`TerminalContext`].
pub struct TerminalContextView {
    pub enabled: bool,
    pub commands: Seq<Seq<char>>,
    pub last_refresh: Option<u64>,
}

impl View for TerminalContext {
    type V = TerminalContextView;

    closed spec fn view(&self) -> TerminalContextView {
        TerminalContextView {
            enabled: self.enabled,
            commands: views(self.commands@),
            last_refresh: self.last_refresh,
        }
    }
}

/// Whether a refresh at `now` is due after one at `last`.
pub open spec fn refresh_due(last: Option<u64>, now: u64) -> bool {
    match last {
        Some(t) => !(now >= t && now - t < TERMINAL_CONTEXT_REFRESH_MS),
        None => true,
    }
}

impl TerminalContext {
    /// Privacy switch off, nothing staged.
    pub fn new() -> (r: TerminalContext)
        ensures
            !r@.enabled,
            r@.commands.len() == 0,
            r@.last_refresh is None,
    {
        TerminalContext { enabled: false, commands: Vec::new(), last_refresh: None }
    }

    /// Sets the privacy switch (as read from the dsh settings file).
    pub fn set_enabled(&mut self, enabled: bool)
        ensures
            final(self)@ == (TerminalContextView { enabled, ..old(self)@ }),
    {
        self.enabled = enabled;
    }

    /// Whether the privacy switch is on.
    pub fn is_enabled(&self) -> (r: bool)
        ensures
            r == self@.enabled,
    {
        self.enabled
    }

    /// Decides one frame's refresh at `now` with the switch as it is on disk:
    /// no refresh while the switch is off or within the throttle interval of
    /// the last refresh. A refresh due is recorded at `now`.
    pub fn begin_refresh(&mut self, enabled_on_disk: bool, now: u64) -> (r: bool)
        ensures
            final(self)@.enabled == enabled_on_disk,
            final(self)@.commands == old(self)@.commands,
            r == (enabled_on_disk && refresh_due(old(self)@.last_refresh, now)),
            final(self)@.last_refresh == if r {
                Some(now)
            } else {
                old(self)@.last_refresh
            },
    {
        self.enabled = enabled_on_disk;
        if !enabled_on_disk {
            return false;
        }
        let due = match self.last_refresh {
            Some(t) => !(now >= t && now - t < TERMINAL_CONTEXT_REFRESH_MS),
            None => true,
        };
        if due {
            self.last_refresh = Some(now);
        }
        due
    }

    /// Stages the active session's history (oldest first): its newest
    /// [`TERMINAL_CONTEXT_MAX`] commands, newest first; nothing without a
    /// session.
    pub fn stage_history(&mut self, history: Option<&Vec<String>>)
        ensures
            final(self)@.enabled == old(self)@.enabled,
            final(self)@.last_refresh == old(self)@.last_refresh,
            final(self)@.commands == match history {
                Some(h) => newest_first(views(h@), TERMINAL_CONTEXT_MAX as nat),
                None => Seq::<Seq<char>>::empty(),
            },
    {
        let mut staged: Vec<String> = Vec::new();
        match history {
            Some(h) => {
                let n = h.len();
                let take = if n < TERMINAL_CONTEXT_MAX {
                    n
                } else {
                    TERMINAL_CONTEXT_MAX
                };
                let mut i: usize = 0;
                while i < take
                    invariant
                        take <= n,
                        n == h@.len(),
                        take == (if n < TERMINAL_CONTEXT_MAX {
                            n
                        } else {
                            TERMINAL_CONTEXT_MAX
                        }),
                        i <= take,
                        views(staged@) =~= newest_first(views(h@), TERMINAL_CONTEXT_MAX as nat).take(
                            i as int,
                        ),
                    decreases take - i,
                {
                    let c = h[n - 1 - i].clone();
                    let ghost before = staged@;
                    staged.push(c);
                    proof {
                        assert(views(staged@) =~= views(before).push(h@[n - 1 - i]@));
                    }
                    i += 1;
                }
                proof {
                    assert(newest_first(views(h@), TERMINAL_CONTEXT_MAX as nat).take(i as int)
                        =~= newest_first(views(h@), TERMINAL_CONTEXT_MAX as nat));
                }
            },
            None => {
                proof {
                    assert(views(staged@) =~= Seq::<Seq<char>>::empty());
                }
            },
        }
        self.commands = staged;
    }

    /// The staged commands for dsh; none while the privacy switch is off.
    pub fn terminal_context(&self) -> (r: Vec<String>)
        ensures
            views(r@) == if self@.enabled {
                self@.commands
            } else {
                Seq::<Seq<char>>::empty()
            },
    {
        if self.enabled {
            let mut out: Vec<String> = Vec::new();
            let mut i: usize = 0;
            while i < self.commands.len()
                invariant
                    i <= self.commands@.len(),
                    views(out@) =~= views(self.commands@).take(i as int),
                decreases self.commands@.len() - i,
            {
                let ghost before = out@;
                out.push(self.commands[i].clone());
                proof {
                    assert(views(out@) =~= views(before).push(self.commands@[i as int]@));
                }
                i += 1;
            }
            proof {
                assert(views(self.commands@).take(i as int) =~= views(self.commands@));
            }
            out
        } else {
            let out: Vec<String> = Vec::new();
            proof {
                assert(views(out@) =~= Seq::<Seq<char>>::empty());
            }
            out
        }
    }
}

/// The privacy switch as the dsh settings text holds it: the boolean
/// `terminal_context_enabled`; off where the settings are missing, are no JSON
/// object or hold no boolean there.
pub open spec fn context_enabled_spec(settings: Option<Seq<char>>) -> bool {
    match settings {
        Some(text) => match json_object_field(text, "terminal_context_enabled"@) {
            JsonFieldView::Bool(b) => b,
            _ => false,
        },
        None => false,
    }
}

/// Reads the privacy switch from the dsh settings text (`None` where the
/// settings file could not be read).
pub fn terminal_context_enabled_from_settings(settings: Option<&str>) -> (r: bool)
    ensures
        r == context_enabled_spec(
            match settings {
                Some(t) => Some(t@),
                None => None,
            },
        ),
{
    match settings {
        Some(text) => match json_field(text, "terminal_context_enabled") {
            JsonField::Bool(b) => b,
            _ => false,
        },
        None => false,
    }
}

} // verus!
