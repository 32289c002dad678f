//! The OMP agent's commands for the slash-command menu of the CLI agent
//! input: the built-in ones (`~/.omp/agent/builtin_commands.json`), the custom
//! ones (`~/.omp/agent/commands/*.md`) and the skills. Reading the files is
//! the caller's part; here is what is made of their contents.

use vstd::prelude::*;

use crate::lines::{line_end, lemma_split_lines_step, split_lines, token_end, token_len};
use crate::text::{
    chars_eq, contains_sub, find_sub, find_sub_exec, from_chars, has_prefix, is_ws, is_ws_exec,
    lemma_find_sub_none, push_str, slice_range, starts_with, to_chars, trim, trim_chars,
    trim_start,
};

verus! {

/// A command of `builtin_commands.json`.
#[derive(Debug, Clone)]
pub struct OmpCommandDefinition {
    pub name: String,
    pub description: String,
    /// Defaults to empty.
    pub group: String,
    /// Whether submitting the command hands the focus back to the terminal
    /// UI; defaults to false.
    pub focus_terminal_after_submit: bool,
}

/// The root of `builtin_commands.json`.
#[derive(Debug, Clone)]
pub struct OmpCommandsFile {
    pub version: Option<u32>,
    pub commands: Vec<OmpCommandDefinition>,
}

/// Where a menu entry comes from.
#[derive(Debug, Clone, Copy, PartialEq, Eq, Structural)]
pub enum OmpCommandSource {
    Builtin,
    Custom,
    Skill,
}

/// A menu entry.
#[derive(Debug, Clone)]
pub struct OmpCommandItem {
    /// The command text, such as `/plan`.
    pub text: String,
    pub description: String,
    pub source: OmpCommandSource,
}

/// The views of menu entries.
pub open spec fn item_views(v: Seq<OmpCommandItem>) -> Seq<(Seq<char>, Seq<char>, OmpCommandSource)> {
    v.map_values(|it: OmpCommandItem| (it.text@, it.description@, it.source))
}

/// The menu entries of the built-in commands: name and description, in order.
pub fn builtin_items(file: &OmpCommandsFile) -> (r: Vec<OmpCommandItem>)
    ensures
        item_views(r@) == file.commands@.map_values(
            |d: OmpCommandDefinition| (d.name@, d.description@, OmpCommandSource::Builtin),
        ),
{
    let mut out: Vec<OmpCommandItem> = Vec::new();
    let mut i: usize = 0;
    while i < file.commands.len()
        invariant
            i <= file.commands@.len(),
            item_views(out@) =~= file.commands@.take(i as int).map_values(
                |d: OmpCommandDefinition| (d.name@, d.description@, OmpCommandSource::Builtin),
            ),
        decreases file.commands@.len() - i,
    {
        let d = &file.commands[i];
        let ghost before = out@;
        out.push(
            OmpCommandItem {
                text: d.name.clone(),
                description: d.description.clone(),
                source: OmpCommandSource::Builtin,
            },
        );
        proof {
            assert(file.commands@.take(i + 1) =~= file.commands@.take(i as int).push(
                file.commands@[i as int],
            ));
            assert(item_views(out@) =~= item_views(before).push(
                (d.name@, d.description@, OmpCommandSource::Builtin),
            ));
        }
        i += 1;
    }
    proof {
        assert(file.commands@.take(i as int) =~= file.commands@);
    }
    out
}

/// `s` without leading and trailing `"`s (`str::trim_matches('"')`).
pub open spec fn trim_quotes(s: Seq<char>) -> Seq<char>
    decreases s.len(),
{
    if s.len() > 0 && s[0] == '"' {
        trim_quotes(s.drop_first())
    } else if s.len() > 0 && s.last() == '"' {
        trim_quotes(s.drop_last())
    } else {
        s
    }
}

/// The first `description:` line of `lines` with a non-empty value (trimmed,
/// unquoted, trimmed again).
pub open spec fn first_description(lines: Seq<Seq<char>>) -> Option<Seq<char>>
    decreases lines.len(),
{
    if lines.len() == 0 {
        None
    } else if has_prefix(lines[0], "description:"@) && trim(
        trim_quotes(trim(lines[0].skip(12))),
    ).len() > 0 {
        Some(trim(trim_quotes(trim(lines[0].skip(12)))))
    } else {
        first_description(lines.drop_first())
    }
}

/// The description of a markdown file's front matter: the text between the
/// opening `---` (after trimming the file) and the next `---`, searched line
/// by line.
pub open spec fn frontmatter_description(content: Seq<char>) -> Option<Seq<char>> {
    let c = trim(content);
    if !has_prefix(c, "---"@) {
        None
    } else {
        match find_sub(c.skip(3), "---"@) {
            Some(end) => first_description(split_lines(c.skip(3).take(end))),
            None => None,
        }
    }
}

/// Removes leading and trailing `"`s.
fn trim_quotes_exec(s: &Vec<char>) -> (r: Vec<char>)
    ensures
        r@ == trim_quotes(s@),
{
    let mut a: usize = 0;
    let mut b: usize = s.len();
    proof {
        assert(s@.subrange(0, b as int) =~= s@);
    }
    loop
        invariant
            a <= b <= s@.len(),
            trim_quotes(s@) == trim_quotes(s@.subrange(a as int, b as int)),
        decreases b - a,
    {
        let ghost t = s@.subrange(a as int, b as int);
        if a < b && s[a] == '"' {
            proof {
                assert(t.drop_first() =~= s@.subrange(a + 1, b as int));
            }
            a += 1;
        } else if a < b && s[b - 1] == '"' {
            proof {
                assert(t.drop_last() =~= s@.subrange(a as int, b - 1));
            }
            b -= 1;
        } else {
            return slice_range(s, a, b);
        }
    }
}

/// The description of a markdown file's front matter, as
/// [`frontmatter_description`] says.
pub fn parse_frontmatter_description(content: &str) -> (r: Option<String>)
    ensures
        match frontmatter_description(content@) {
            Some(d) => r matches Some(v) && v@ == d,
            None => r is None,
        },
{
    let c = trim_chars(&to_chars(content));
    let dashes = to_chars("---");
    proof {
        reveal_strlit("---");
        reveal_strlit("description:");
    }
    if !starts_with(&c, &dashes) {
        return None;
    }
    let n = c.len();
    let rest = slice_range(&c, 3, n);
    proof {
        assert(rest@ =~= c@.skip(3));
    }
    let end = match find_sub_exec(&rest, &dashes) {
        Some(e) => e,
        None => return None,
    };
    proof {
        lemma_find_sub_none(rest@, dashes@);
    }
    let fm = slice_range(&rest, 0, end);
    proof {
        assert(fm@ =~= rest@.take(end as int));
    }
    let key = to_chars("description:");
    assert(key@.len() == 12);
    assert(frontmatter_description(content@) == first_description(split_lines(fm@)));
    let mut start: usize = 0;
    proof {
        assert(fm@.skip(0) =~= fm@);
    }
    loop
        invariant
            start <= fm@.len(),
            key@ == "description:"@,
            key@.len() == 12,
            frontmatter_description(content@) == first_description(split_lines(fm@)),
            first_description(split_lines(fm@)) == first_description(
                split_lines(fm@.skip(start as int)),
            ),
        decreases fm@.len() - start,
    {
        let e = line_end(&fm, start);
        let line = slice_range(&fm, start, e);
        proof {
            lemma_split_lines_step(fm@, start as int, e as int);
            let ls = split_lines(fm@.skip(start as int));
            assert(ls[0] == line@);
            if e < fm@.len() {
                assert(ls.drop_first() =~= split_lines(fm@.skip(e + 1)));
            } else {
                assert(ls.drop_first() =~= Seq::<Seq<char>>::empty());
                assert(first_description(Seq::<Seq<char>>::empty()) is None);
            }
        }
        if starts_with(&line, &key) {
            let ln = line.len();
            let after = slice_range(&line, 12, ln);
            proof {
                assert(after@ =~= line@.skip(12));
            }
            let v = trim_chars(&trim_quotes_exec(&trim_chars(&after)));
            if v.len() > 0 {
                return Some(from_chars(&v));
            }
        }
        if e == fm.len() {
            return None;
        }
        start = e + 1;
    }
}

/// The menu entry of a custom command `<stem>.md`: `/<stem>`, described by
/// its front matter or, without one, as a custom command.
pub fn custom_command_item(stem: &str, content: &str) -> (r: OmpCommandItem)
    ensures
        r.text@ == "/"@ + stem@,
        r.source == OmpCommandSource::Custom,
        match frontmatter_description(content@) {
            Some(d) => r.description@ == d,
            None => r.description@ == "Custom OMP command: /"@ + stem@,
        },
{
    let mut text = String::new();
    push_str(&mut text, "/");
    push_str(&mut text, stem);
    let description = match parse_frontmatter_description(content) {
        Some(d) => d,
        None => {
            let mut d = String::new();
            push_str(&mut d, "Custom OMP command: /");
            push_str(&mut d, stem);
            d
        },
    };
    OmpCommandItem { text, description, source: OmpCommandSource::Custom }
}

/// Appends `more` to `items`.
fn extend_items(items: &mut Vec<OmpCommandItem>, more: Vec<OmpCommandItem>)
    ensures
        item_views(final(items)@) == item_views(old(items)@) + item_views(more@),
{
    let ghost start = items@;
    let mut i: usize = 0;
    while i < more.len()
        invariant
            i <= more@.len(),
            item_views(items@) =~= item_views(start) + item_views(more@.take(i as int)),
        decreases more@.len() - i,
    {
        let it = &more[i];
        let ghost before = items@;
        items.push(
            OmpCommandItem {
                text: it.text.clone(),
                description: it.description.clone(),
                source: it.source,
            },
        );
        proof {
            assert(more@.take(i + 1) =~= more@.take(i as int).push(more@[i as int]));
            assert(item_views(items@) =~= item_views(before).push(
                (it.text@, it.description@, it.source),
            ));
        }
        i += 1;
    }
    proof {
        assert(more@.take(i as int) =~= more@);
    }
}

/// All OMP commands for the menu, by source: built-in, then custom, then the
/// skills.
pub fn all_omp_commands(
    builtin: Vec<OmpCommandItem>,
    custom: Vec<OmpCommandItem>,
    skill_items: Vec<OmpCommandItem>,
) -> (r: Vec<OmpCommandItem>)
    ensures
        item_views(r@) == item_views(builtin@) + item_views(custom@) + item_views(skill_items@),
{
    let mut commands = builtin;
    extend_items(&mut commands, custom);
    extend_items(&mut commands, skill_items);
    commands
}

/// The command name of a submitted text: its first white-space separated
/// word (empty for blank text).
pub open spec fn command_word(text: Seq<char>) -> Seq<char> {
    trim_start(text).take(token_len(trim_start(text)) as int)
}

/// The flag of the first command named `word`; false without one.
pub open spec fn focus_flag(cmds: Seq<OmpCommandDefinition>, word: Seq<char>) -> bool
    decreases cmds.len(),
{
    if cmds.len() == 0 {
        false
    } else if cmds[0].name@ == word {
        cmds[0].focus_terminal_after_submit
    } else {
        focus_flag(cmds.drop_first(), word)
    }
}

/// Whether submitting `command_text` hands the focus back to the terminal:
/// the flag of the first built-in command named like its first word; false
/// without a match or without a readable file (`file` is `None`).
pub open spec fn focus_after_submit(file: Option<Seq<OmpCommandDefinition>>, text: Seq<char>) -> bool {
    match file {
        None => false,
        Some(cmds) => focus_flag(cmds, command_word(text)),
    }
}

/// Decides [`focus_after_submit`] for a parsed `builtin_commands.json`.
pub fn resolve_focus_terminal_after_submit(file: Option<&OmpCommandsFile>, command_text: &str) -> (r:
    bool)
    ensures
        r == focus_after_submit(
            match file {
                Some(f) => Some(f.commands@),
                None => None,
            },
            command_text@,
        ),
{
    let f = match file {
        Some(f) => f,
        None => return false,
    };
    let cs = to_chars(command_text);
    let mut a: usize = 0;
    proof {
        assert(cs@.skip(0) =~= cs@);
    }
    while a < cs.len() && is_ws_exec(cs[a])
        invariant
            a <= cs@.len(),
            trim_start(cs@) == trim_start(cs@.skip(a as int)),
        decreases cs@.len() - a,
    {
        proof {
            assert(cs@.skip(a as int).drop_first() =~= cs@.skip(a + 1));
        }
        a += 1;
    }
    proof {
        assert(trim_start(cs@.skip(a as int)) == cs@.skip(a as int));
    }
    let e = token_end(&cs, a);
    let word = slice_range(&cs, a, e);
    proof {
        assert(word@ =~= command_word(command_text@));
    }
    let mut i: usize = 0;
    proof {
        assert(f.commands@.skip(0) =~= f.commands@);
    }
    while i < f.commands.len()
        invariant
            i <= f.commands@.len(),
            word@ == command_word(command_text@),
            focus_after_submit(
                match file {
                    Some(g) => Some(g.commands@),
                    None => None,
                },
                command_text@,
            ) == focus_flag(f.commands@.skip(i as int), word@),
        decreases f.commands@.len() - i,
    {
        proof {
            assert(f.commands@.skip(i as int)[0] == f.commands@[i as int]);
            assert(f.commands@.skip(i as int).drop_first() =~= f.commands@.skip(i + 1));
        }
        if chars_eq(&to_chars(f.commands[i].name.as_str()), &word) {
            return f.commands[i].focus_terminal_after_submit;
        }
        i += 1;
    }
    false
}

} // verus!
