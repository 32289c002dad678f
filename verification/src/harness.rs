//! Checks before a third-party agent CLI is launched.

use vstd::prelude::*;

use crate::json::{json_quoted, json_string};
use crate::text::{push_str, to_chars};

verus! {

/// A harness could not be set up.
#[derive(Debug, Clone, PartialEq, Eq)]
pub enum AgentDriverError {
    HarnessSetupFailed { harness: String, reason: String },
}

/// The reason given when `cli` is missing: its name, and where to install it
/// from when a link is known.
pub open spec fn missing_cli_reason(cli: Seq<char>, install_docs_url: Option<Seq<char>>) -> Seq<char> {
    match install_docs_url {
        Some(url) => "'"@ + cli + "' CLI not found on your machine."@ + " Install it first: "@ + url,
        None => "'"@ + cli + "' CLI not found on your machine."@,
    }
}

/// Whether `cli` may be launched, given whether it was found on `PATH` or in
/// the usual install directories (`resolved`): a missing CLI is a setup
/// failure of the harness named after it, with an install link if known.
pub fn validate_cli_installed(cli: &str, install_docs_url: Option<&str>, resolved: bool) -> (r: Result<
    (),
    AgentDriverError,
>)
    ensures
        resolved ==> r is Ok,
        !resolved ==> (r matches Err(AgentDriverError::HarnessSetupFailed { harness, reason })
            && harness@ == cli@ && reason@ == missing_cli_reason(
            cli@,
            match install_docs_url {
                Some(u) => Some(u@),
                None => None,
            },
        )),
{
    if resolved {
        return Ok(());
    }
    let mut reason = String::new();
    push_str(&mut reason, "'");
    push_str(&mut reason, cli);
    push_str(&mut reason, "' CLI not found on your machine.");
    match install_docs_url {
        Some(url) => {
            push_str(&mut reason, " Install it first: ");
            push_str(&mut reason, url);
        },
        None => {},
    }
    let mut harness = String::new();
    push_str(&mut harness, cli);
    Err(AgentDriverError::HarnessSetupFailed { harness, reason })
}

/// The prompt of a run: a resumption preamble, when there is a non-empty one,
/// goes first, separated by a blank line.
pub open spec fn resumed_prompt_spec(prompt: Seq<char>, resumption_prompt: Option<Seq<char>>) -> Seq<char> {
    match resumption_prompt {
        Some(p) => if p.len() > 0 {
            p + "\n\n"@ + prompt
        } else {
            prompt
        },
        None => prompt,
    }
}

/// Joins the resumption preamble (if any) and the prompt, as the other
/// harnesses do.
pub fn resumed_prompt(prompt: &str, resumption_prompt: Option<&str>) -> (r: String)
    ensures
        r@ == resumed_prompt_spec(
            prompt@,
            match resumption_prompt {
                Some(p) => Some(p@),
                None => None,
            },
        ),
{
    let mut out = String::new();
    match resumption_prompt {
        Some(p) => {
            if to_chars(p).len() > 0 {
                push_str(&mut out, p);
                push_str(&mut out, "\n\n");
            }
        },
        None => {},
    }
    push_str(&mut out, prompt);
    proof {
        reveal_strlit("\n\n");
    }
    out
}

/// The NDJSON `user_message` that hands `prompt` to `omp --mode=rpc`, with
/// its keys in the order in which `serde_json` writes an object.
pub open spec fn omp_user_message_spec(prompt: Seq<char>) -> Seq<char> {
    "{\"content\":"@ + json_quoted(prompt) + ",\"type\":\"user_message\"}"@
}

/// The NDJSON message that stops the running `omp` on the user's exit.
pub const OMP_CANCEL_MESSAGE: &'static str = "{\"type\":\"cancel\",\"reason\":\"user_exit\"}";

/// How the OMP harness runs: the shell command and the first message written
/// to the terminal after it starts.
#[derive(Debug, Clone)]
pub struct OhMyPiHarnessRunner {
    /// `<cli> --mode=rpc`.
    pub command: String,
    /// The `user_message` line with the prompt.
    pub prompt_ndjson: String,
}

impl OhMyPiHarnessRunner {
    /// The runner for `cli_command` and `prompt`.
    pub fn new(cli_command: &str, prompt: &str) -> (r: OhMyPiHarnessRunner)
        ensures
            r.command@ == cli_command@ + " --mode=rpc"@,
            r.prompt_ndjson@ == omp_user_message_spec(prompt@),
    {
        let mut command = String::new();
        push_str(&mut command, cli_command);
        push_str(&mut command, " --mode=rpc");
        let mut prompt_ndjson = String::new();
        push_str(&mut prompt_ndjson, "{\"content\":");
        let quoted = json_string(prompt);
        push_str(&mut prompt_ndjson, quoted.as_str());
        push_str(&mut prompt_ndjson, ",\"type\":\"user_message\"}");
        OhMyPiHarnessRunner { command, prompt_ndjson }
    }
}

/// A message as written to the terminal: one line.
pub fn pty_line(message: &str) -> (r: String)
    ensures
        r@ == message@.push('\n'),
{
    let mut out = String::new();
    push_str(&mut out, message);
    out.push('\n');
    out
}

} // verus!
