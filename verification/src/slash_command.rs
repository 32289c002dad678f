//! Slash commands typed into the AI input that go through the AI query flow.

use vstd::prelude::*;

use crate::text::{chars_eq, from_chars, has_prefix, slice_range, starts_with, to_chars};

verus! {

/// A slash command for the AI query flow. `Skill` is the parsed skill that
/// an invocation carries.
#[derive(Debug, Clone)]
pub enum SlashCommandRequest<Skill> {
    CreateNewProject { query: String },
    CloneRepository { url: String },
    InitProjectRules { arguments: Option<String> },
    /// A summary of the conversation; `overflow` says whether an overflow of
    /// the context started it (never for typed commands).
    Summarize { prompt: Option<String>, overflow: bool },
    InvokeSkill { skill: Skill, user_query: Option<String> },
}

/// What typed `query` asks for, given the names of the init and compact
/// commands: the init command alone or followed by a space and its
/// arguments; anything that starts with the compact command, whose prompt is
/// what follows a space after it; otherwise nothing.
pub open spec fn from_query_spec<Skill>(
    query: Seq<char>,
    init_name: Seq<char>,
    compact_name: Seq<char>,
    r: Option<SlashCommandRequest<Skill>>,
) -> bool {
    if query == init_name {
        r matches Some(SlashCommandRequest::InitProjectRules { arguments }) && arguments is None
    } else if has_prefix(query, init_name.push(' ')) {
        r matches Some(SlashCommandRequest::InitProjectRules { arguments: Some(a) }) && a@
            == query.skip(init_name.len() + 1int)
    } else if has_prefix(query, compact_name) {
        let rest = query.skip(compact_name.len() as int);
        r matches Some(SlashCommandRequest::Summarize { prompt, overflow }) && !overflow && if rest.len()
            > 0 && rest[0] == ' ' {
            prompt matches Some(p) && p@ == rest.skip(1)
        } else {
            prompt is None
        }
    } else {
        r is None
    }
}

impl<Skill> SlashCommandRequest<Skill> {
    /// Parses typed input into a request for the commands that the AI query
    /// flow handles, as [`from_query_spec`] says.
    pub fn from_query(query: &str, init_name: &str, compact_name: &str) -> (r: Option<Self>)
        ensures
            from_query_spec(query@, init_name@, compact_name@, r),
    {
        let q = to_chars(query);
        let init = to_chars(init_name);
        let compact = to_chars(compact_name);
        if chars_eq(&q, &init) {
            return Some(SlashCommandRequest::InitProjectRules { arguments: None });
        }
        let mut init_space = init.clone();
        init_space.push(' ');
        proof {
            assert(init_space@ =~= init_name@.push(' '));
        }
        if starts_with(&q, &init_space) {
            let rest = slice_range(&q, init_space.len(), q.len());
            proof {
                assert(rest@ =~= query@.skip(init_name@.len() + 1int));
            }
            return Some(SlashCommandRequest::InitProjectRules { arguments: Some(from_chars(&rest)) });
        }
        if starts_with(&q, &compact) {
            let rest = slice_range(&q, compact.len(), q.len());
            proof {
                assert(rest@ =~= query@.skip(compact_name@.len() as int));
            }
            let prompt = if rest.len() > 0 && rest[0] == ' ' {
                let p = slice_range(&rest, 1, rest.len());
                proof {
                    assert(p@ =~= rest@.skip(1));
                }
                Some(from_chars(&p))
            } else {
                None
            };
            return Some(SlashCommandRequest::Summarize { prompt, overflow: false });
        }
        None
    }
}

} // verus!
