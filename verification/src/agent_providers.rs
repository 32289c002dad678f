//! Extra request headers of bring-your-own-provider gateways, with the
//! conversation's session id filled in.

use vstd::prelude::*;

use crate::text::{chars_eq, replace_all, replace_all_exec, to_chars};

verus! {

/// The placeholder that header values use for the session id.
pub const SESSION_ID_PLACEHOLDER: &'static str = "{{session_id}}";

/// The views of `(name, value)` header pairs.
pub open spec fn header_views(h: Seq<(String, String)>) -> Seq<(Seq<char>, Seq<char>)> {
    h.map_values(|p: (String, String)| (p.0@, p.1@))
}

/// Every occurrence of the placeholder in each header value replaced by
/// `session_id`; names and order unchanged.
pub open spec fn substituted(h: Seq<(Seq<char>, Seq<char>)>, session_id: Seq<char>) -> Seq<
    (Seq<char>, Seq<char>),
> {
    h.map_values(
        |p: (Seq<char>, Seq<char>)| (p.0, replace_all(p.1, SESSION_ID_PLACEHOLDER@, session_id)),
    )
}

/// Fills `session_id` into the header values, as [`substituted`] says.
pub fn substitute_session_id(headers: Vec<(String, String)>, session_id: &str) -> (r: Vec<
    (String, String),
>)
    ensures
        header_views(r@) == substituted(header_views(headers@), session_id@),
{
    proof {
        reveal_strlit("{{session_id}}");
    }
    let mut out: Vec<(String, String)> = Vec::new();
    let mut i: usize = 0;
    while i < headers.len()
        invariant
            i <= headers@.len(),
            SESSION_ID_PLACEHOLDER@.len() > 0,
            header_views(out@) =~= substituted(header_views(headers@).take(i as int), session_id@),
        decreases headers@.len() - i,
    {
        let name = headers[i].0.clone();
        let value = replace_all_exec(headers[i].1.as_str(), SESSION_ID_PLACEHOLDER, session_id);
        let ghost before = out@;
        out.push((name, value));
        proof {
            assert(header_views(headers@).take(i + 1) =~= header_views(headers@).take(i as int).push(
                (headers@[i as int].0@, headers@[i as int].1@),
            ));
            assert(header_views(out@) =~= header_views(before).push(
                (headers@[i as int].0@, replace_all(headers@[i as int].1@, SESSION_ID_PLACEHOLDER@, session_id@)),
            ));
        }
        i += 1;
    }
    proof {
        assert(header_views(headers@).take(i as int) =~= header_views(headers@));
    }
    out
}

/// The OpenCode gateways carry the session header.
pub open spec fn seeds_session_header(provider_id: Seq<char>) -> bool {
    provider_id == "opencode"@ || provider_id == "opencode-go"@
}

/// The extra headers a provider preset starts with: the OpenCode gateways
/// send the session id as `x-opencode-session`; other providers none.
pub fn preset_extra_headers(provider_id: &str) -> (r: Vec<(String, String)>)
    ensures
        seeds_session_header(provider_id@) ==> header_views(r@) == seq![
            ("x-opencode-session"@, SESSION_ID_PLACEHOLDER@),
        ],
        !seeds_session_header(provider_id@) ==> r@.len() == 0,
{
    let id = to_chars(provider_id);
    let mut out: Vec<(String, String)> = Vec::new();
    if chars_eq(&id, &to_chars("opencode")) || chars_eq(&id, &to_chars("opencode-go")) {
        let name = String::from_str("x-opencode-session");
        let value = String::from_str(SESSION_ID_PLACEHOLDER);
        out.push((name, value));
        proof {
            assert(header_views(out@) =~= seq![("x-opencode-session"@, SESSION_ID_PLACEHOLDER@)]);
        }
    }
    out
}

} // verus!
