//! What the runtime reads out of the dsh web logs: the ready URL, the first
//! fatal error line, the reason shown when restarts give up, and which of the
//! per-start log files to keep.

use vstd::prelude::*;

use crate::pid_record::{decimal, push_decimal};
use crate::lines::{
    line_end, lemma_split_lines_step, split_lines, token_end, token_len,
};
use crate::text::{
    contains_sub, find_sub, find_sub_exec, is_first_match, from_chars, has_prefix, has_suffix, lemma_find_sub_none,
    push_str, slice_range, starts_with, ends_with, to_chars, trim, trim_chars,
};

verus! {

/// File names of the per-start web logs begin with this.
pub const DSH_WEB_LOG_PREFIX: &'static str = "zap-dsh-web-";

/// How many web logs are kept, the current one included.
pub const DSH_WEB_LOG_KEEP: usize = 5;

/// The longest error line reported, in characters.
pub const MAX_ERROR_CHARS: usize = 500;

/// Whether `name` is the file name of a web log written by the runtime.
pub open spec fn is_web_log_name_spec(name: Seq<char>) -> bool {
    has_prefix(name, DSH_WEB_LOG_PREFIX@) && has_suffix(name, ".log"@)
}

/// Whether `name` is the file name of a web log written by the runtime.
pub fn is_web_log_name(name: &str) -> (r: bool)
    ensures
        r == is_web_log_name_spec(name@),
{
    let n = to_chars(name);
    let prefix = to_chars(DSH_WEB_LOG_PREFIX);
    let suffix = to_chars(".log");
    starts_with(&n, &prefix) && ends_with(&n, &suffix)
}

/// The first of `lines` that, trimmed, contains `Error: `; trimmed.
pub open spec fn first_error_line(lines: Seq<Seq<char>>) -> Option<Seq<char>>
    decreases lines.len(),
{
    if lines.len() == 0 {
        None
    } else if contains_sub(trim(lines[0]), "Error: "@) {
        Some(trim(lines[0]))
    } else {
        first_error_line(lines.drop_first())
    }
}

/// At most the first [`MAX_ERROR_CHARS`] characters of `s`.
pub open spec fn clip_error(s: Seq<char>) -> Seq<char> {
    if s.len() <= MAX_ERROR_CHARS {
        s
    } else {
        s.take(MAX_ERROR_CHARS as int)
    }
}

/// The fatal error of a log: its first line containing `Error: ` (the
/// outermost of a Node.js error and its causes), trimmed and clipped.
pub open spec fn fatal_error(log: Seq<char>) -> Option<Seq<char>> {
    match first_error_line(split_lines(log)) {
        Some(line) => Some(clip_error(line)),
        None => None,
    }
}

proof fn lemma_first_error_line(lines: Seq<Seq<char>>, i: int)
    ensures
        first_error_line(lines) is None <==> (forall|j: int|
            0 <= j < lines.len() ==> !contains_sub(trim(#[trigger] lines[j]), "Error: "@)),
        0 <= i < lines.len() && contains_sub(trim(lines[i]), "Error: "@) && (forall|j: int|
            0 <= j < i ==> !contains_sub(trim(#[trigger] lines[j]), "Error: "@))
            ==> first_error_line(lines) == Some(trim(lines[i])),
    decreases lines.len(),
{
    if lines.len() > 0 {
        let rest = lines.drop_first();
        lemma_first_error_line(rest, i - 1);
        assert forall|j: int| 0 <= j < rest.len() implies rest[j] == lines[j + 1] by {}
        if !contains_sub(trim(lines[0]), "Error: "@) {
            assert((forall|j: int|
                0 <= j < lines.len() ==> !contains_sub(trim(#[trigger] lines[j]), "Error: "@)) <==> (
            forall|j: int|
                0 <= j < rest.len() ==> !contains_sub(trim(#[trigger] rest[j]), "Error: "@))) by {
                if forall|j: int|
                    0 <= j < rest.len() ==> !contains_sub(trim(#[trigger] rest[j]), "Error: "@) {
                    assert forall|j: int| 0 <= j < lines.len() implies !contains_sub(
                        trim(#[trigger] lines[j]),
                        "Error: "@,
                    ) by {
                        if j > 0 {
                            assert(lines[j] == rest[j - 1]);
                        }
                    }
                }
            }
            if 0 < i < lines.len() && (forall|j: int|
                0 <= j < i ==> !contains_sub(trim(#[trigger] lines[j]), "Error: "@)) {
                assert forall|j: int| 0 <= j < i - 1 implies !contains_sub(
                    trim(#[trigger] rest[j]),
                    "Error: "@,
                ) by {
                    assert(rest[j] == lines[j + 1]);
                }
                assert(rest[i - 1] == lines[i]);
            }
        } else {
            assert(!(forall|j: int|
                0 <= j < lines.len() ==> !contains_sub(trim(#[trigger] lines[j]), "Error: "@)));
            if 0 < i < lines.len() {
                assert(!(forall|j: int|
                    0 <= j < i ==> !contains_sub(trim(#[trigger] lines[j]), "Error: "@)));
            }
        }
    }
}

/// The fatal error of a log is its first line that, trimmed, contains
/// `Error: ` anywhere (`TypeError: `, `SyntaxError: ` and the like included),
/// trimmed and cut to [`MAX_ERROR_CHARS`] characters; there is none exactly
/// when no line contains `Error: `.
pub proof fn law_fatal_error_is_first_line_with_error(log: Seq<char>, i: int)
    ensures
        fatal_error(log) is None <==> (forall|j: int|
            0 <= j < split_lines(log).len() ==> !contains_sub(
                trim(#[trigger] split_lines(log)[j]),
                "Error: "@,
            )),
        0 <= i < split_lines(log).len() && contains_sub(trim(split_lines(log)[i]), "Error: "@) && (
        forall|j: int|
            0 <= j < i ==> !contains_sub(trim(#[trigger] split_lines(log)[j]), "Error: "@)) ==> {
            let line = trim(split_lines(log)[i]);
            &&& fatal_error(log) is Some
            &&& fatal_error(log)->0 == (if line.len() <= MAX_ERROR_CHARS {
                line
            } else {
                line.take(MAX_ERROR_CHARS as int)
            })
        },
        fatal_error(log) matches Some(e) ==> e.len() <= MAX_ERROR_CHARS,
{
    lemma_first_error_line(split_lines(log), i);
}

/// The first error line of a dsh log, as described by [`fatal_error`].
pub fn extract_fatal_error(log_text: &str) -> (r: Option<String>)
    ensures
        match fatal_error(log_text@) {
            Some(e) => r matches Some(v) && v@ == e,
            None => r is None,
        },
{
    let cs = to_chars(log_text);
    let pat = to_chars("Error: ");
    let mut start: usize = 0;
    proof {
        assert(cs@.skip(0) =~= cs@);
    }
    loop
        invariant
            start <= cs@.len(),
            cs@ == log_text@,
            pat@ == "Error: "@,
            first_error_line(split_lines(cs@)) == first_error_line(
                split_lines(cs@.skip(start as int)),
            ),
        decreases cs@.len() - start,
    {
        let end = line_end(&cs, start);
        let raw = slice_range(&cs, start, end);
        let line = trim_chars(&raw);
        proof {
            lemma_split_lines_step(cs@, start as int, end as int);
            let ls = split_lines(cs@.skip(start as int));
            assert(ls[0] == raw@);
            if end < cs@.len() {
                assert(ls.drop_first() =~= split_lines(cs@.skip(end + 1)));
            } else {
                assert(ls.drop_first() =~= Seq::<Seq<char>>::empty());
                assert(first_error_line(Seq::<Seq<char>>::empty()) is None);
            }
            lemma_find_sub_none(line@, pat@);
        }
        if find_sub_exec(&line, &pat).is_some() {
            let n = if line.len() <= MAX_ERROR_CHARS {
                line.len()
            } else {
                MAX_ERROR_CHARS
            };
            let clipped = slice_range(&line, 0, n);
            proof {
                if line@.len() <= MAX_ERROR_CHARS {
                    assert(line@.subrange(0, n as int) =~= line@);
                } else {
                    assert(line@.subrange(0, n as int) =~= line@.take(MAX_ERROR_CHARS as int));
                }
            }
            return Some(from_chars(&clipped));
        }
        if end == cs.len() {
            return None;
        }
        start = end + 1;
    }
}

/// The reason shown when restarts give up, given the latest log.
pub open spec fn crash_failure_reason_spec(log_path: Seq<char>, log_text: Seq<char>) -> Seq<char> {
    match fatal_error(log_text) {
        Some(detail) => "dsh web crashed repeatedly: "@ + detail,
        None => "dsh web crashed repeatedly; no error line in "@ + log_path,
    }
}

/// The reason shown when restarts give up: the log's fatal error line, or,
/// without one, the path of the log to look at.
pub fn crash_failure_reason_from(log_path: &str, log_text: &str) -> (r: String)
    ensures
        r@ == crash_failure_reason_spec(log_path@, log_text@),
{
    let mut out = String::new();
    match extract_fatal_error(log_text) {
        Some(detail) => {
            push_str(&mut out, "dsh web crashed repeatedly: ");
            push_str(&mut out, detail.as_str());
        },
        None => {
            push_str(&mut out, "dsh web crashed repeatedly; no error line in ");
            push_str(&mut out, log_path);
        },
    }
    out
}

/// The ready URL that the dsh launcher prints as `dsh web: <url>`: the text
/// after the first `dsh web: http://127.0.0.1:` marker's `dsh web: `, up to
/// the next white space.
pub open spec fn ready_url(text: Seq<char>) -> Option<Seq<char>> {
    match find_sub(text, "dsh web: http://127.0.0.1:"@) {
        Some(i) => {
            let rest = text.skip(i + "dsh web: "@.len());
            Some(rest.take(token_len(rest) as int))
        },
        None => None,
    }
}

/// Parses the web UI URL out of the launcher's output, as [`ready_url`] says.
/// Anchoring on the launcher's own line skips URLs that plugins print first.
pub fn parse_ready_url(text: &str) -> (r: Option<String>)
    ensures
        match ready_url(text@) {
            Some(u) => r matches Some(v) && v@ == u,
            None => r is None,
        },
{
    let cs = to_chars(text);
    let marker = to_chars("dsh web: http://127.0.0.1:");
    let lead = to_chars("dsh web: ");
    proof {
        reveal_strlit("dsh web: http://127.0.0.1:");
        reveal_strlit("dsh web: ");
    }
    let n = cs.len();
    match find_sub_exec(&cs, &marker) {
        Some(i) => {
            proof {
                lemma_find_sub_none(cs@, marker@);
                assert(lead@.len() == 9);
                assert(marker@.len() == 26);
                assert(is_first_match(cs@, marker@, i as int));
                assert(i + 26 <= n);
            }
            let start = i + lead.len();
            let end = token_end(&cs, start);
            let url = slice_range(&cs, start, end);
            proof {
                assert(url@ =~= cs@.skip(start as int).take(token_len(cs@.skip(start as int)) as int));
            }
            Some(from_chars(&url))
        },
        None => None,
    }
}

/// A file of the log directory: its name and modification time (nanoseconds
/// from the Unix epoch, negative before it).
#[derive(Debug, Clone)]
pub struct WebLogEntry {
    pub name: String,
    pub modified_ns: i128,
}

/// Code point order on names (a proper prefix comes first): the order of
/// paths of one directory.
pub open spec fn name_lt(a: Seq<char>, b: Seq<char>) -> bool
    decreases a.len(),
{
    if a.len() == 0 {
        b.len() > 0
    } else if b.len() == 0 {
        false
    } else if a[0] != b[0] {
        a[0] < b[0]
    } else {
        name_lt(a.drop_first(), b.drop_first())
    }
}

/// The order in which logs age: by modification time, then by name.
pub open spec fn log_lt(a: WebLogEntry, b: WebLogEntry) -> bool {
    a.modified_ns < b.modified_ns || (a.modified_ns == b.modified_ns && name_lt(a.name@, b.name@))
}

/// Whether `a` comes before `b` in code point order.
pub fn name_less(a: &str, b: &str) -> (r: bool)
    ensures
        r == name_lt(a@, b@),
{
    let x = to_chars(a);
    let y = to_chars(b);
    let mut i: usize = 0;
    proof {
        assert(x@.skip(0) =~= x@);
        assert(y@.skip(0) =~= y@);
    }
    while i < x.len() && i < y.len() && x[i] == y[i]
        invariant
            i <= x@.len(),
            i <= y@.len(),
            name_lt(a@, b@) == name_lt(x@.skip(i as int), y@.skip(i as int)),
            x@ == a@,
            y@ == b@,
        decreases x@.len() - i,
    {
        proof {
            assert(x@.skip(i as int).drop_first() =~= x@.skip(i + 1));
            assert(y@.skip(i as int).drop_first() =~= y@.skip(i + 1));
        }
        i += 1;
    }
    if i == x.len() {
        i < y.len()
    } else if i == y.len() {
        false
    } else {
        x[i] < y[i]
    }
}

/// Whether log `a` is older than log `b` in the order of [`log_lt`].
pub fn log_less(a: &WebLogEntry, b: &WebLogEntry) -> (r: bool)
    ensures
        r == log_lt(*a, *b),
{
    a.modified_ns < b.modified_ns || (a.modified_ns == b.modified_ns && name_less(
        a.name.as_str(),
        b.name.as_str(),
    ))
}

/// A web log other than the one of the running start.
pub open spec fn is_prunable(e: WebLogEntry, current: Seq<char>) -> bool {
    is_web_log_name_spec(e.name@) && e.name@ != current
}

/// The entries of `es` that are web logs other than `current`, in order.
pub open spec fn prunable(es: Seq<WebLogEntry>, current: Seq<char>) -> Seq<WebLogEntry>
    decreases es.len(),
{
    if es.len() == 0 {
        seq![]
    } else if is_prunable(es.last(), current) {
        prunable(es.drop_last(), current).push(es.last())
    } else {
        prunable(es.drop_last(), current)
    }
}

/// How many entries of `es` are older than `e`.
pub open spec fn older_count(es: Seq<WebLogEntry>, e: WebLogEntry) -> nat
    decreases es.len(),
{
    if es.len() == 0 {
        0
    } else {
        older_count(es.drop_last(), e) + if log_lt(es.last(), e) {
            1nat
        } else {
            0nat
        }
    }
}

/// How many of `n` prunable logs go: the current log takes one of the
/// [`DSH_WEB_LOG_KEEP`] places.
pub open spec fn stale_count(n: nat) -> int {
    if n <= DSH_WEB_LOG_KEEP - 1 {
        0
    } else {
        n - (DSH_WEB_LOG_KEEP - 1)
    }
}

/// Counts the entries of `es` older than `e`.
fn count_older(es: &Vec<WebLogEntry>, e: &WebLogEntry) -> (r: usize)
    ensures
        r == older_count(es@, *e),
{
    let mut n: usize = 0;
    let mut i: usize = 0;
    while i < es.len()
        invariant
            i <= es@.len(),
            n == older_count(es@.take(i as int), *e),
            n <= i,
        decreases es@.len() - i,
    {
        proof {
            assert(es@.take(i + 1).drop_last() =~= es@.take(i as int));
        }
        if log_less(&es[i], e) {
            n += 1;
        }
        i += 1;
    }
    proof {
        assert(es@.take(i as int) =~= es@);
    }
    n
}

/// The names of the logs of `cands` that have fewer than `stale` older ones
/// among `all`, in order.
pub open spec fn stale_names(cands: Seq<WebLogEntry>, all: Seq<WebLogEntry>, stale: int) -> Seq<
    Seq<char>,
>
    decreases cands.len(),
{
    if cands.len() == 0 {
        seq![]
    } else if older_count(all, cands.last()) < stale {
        stale_names(cands.drop_last(), all, stale).push(cands.last().name@)
    } else {
        stale_names(cands.drop_last(), all, stale)
    }
}

/// The views of a list of strings.
pub open spec fn string_views(v: Seq<String>) -> Seq<Seq<char>> {
    v.map_values(|s: String| s@)
}

/// The logs to delete so that at most [`DSH_WEB_LOG_KEEP`] remain with the
/// current one (`current`, never deleted). Files that are no web logs are
/// never deleted. Among the prunable logs, those with fewer than
/// `stale_count` older ones go: the oldest, as a sort by time and then name
/// gives them, since the names of one directory are distinct.
pub fn stale_web_logs(entries: &Vec<WebLogEntry>, current: &str) -> (r: Vec<String>)
    ensures
        ({
            let cands = prunable(entries@, current@);
            string_views(r@) == stale_names(cands, cands, stale_count(cands.len()))
        }),
{
    let mut cands: Vec<WebLogEntry> = Vec::new();
    let mut i: usize = 0;
    while i < entries.len()
        invariant
            i <= entries@.len(),
            cands@ == prunable(entries@.take(i as int), current@),
            cands@.len() <= i,
        decreases entries@.len() - i,
    {
        proof {
            assert(entries@.take(i + 1).drop_last() =~= entries@.take(i as int));
            assert(entries@.take(i + 1).last() == entries@[i as int]);
        }
        let e = &entries[i];
        let name = e.name.as_str();
        let is_log = is_web_log_name(name);
        let is_current = crate::text::chars_eq(&to_chars(name), &to_chars(current));
        if is_log && !is_current {
            cands.push(WebLogEntry { name: e.name.clone(), modified_ns: e.modified_ns });
        }
        i += 1;
    }
    proof {
        assert(entries@.take(i as int) =~= entries@);
    }
    let keep_others = DSH_WEB_LOG_KEEP - 1;
    let stale: usize = if cands.len() <= keep_others {
        0
    } else {
        cands.len() - keep_others
    };
    let mut out: Vec<String> = Vec::new();
    let mut j: usize = 0;
    proof {
        assert(string_views(out@) =~= stale_names(cands@.take(0), cands@, stale as int));
    }
    while j < cands.len()
        invariant
            j <= cands@.len(),
            stale == stale_count(cands@.len()),
            string_views(out@) == stale_names(cands@.take(j as int), cands@, stale as int),
        decreases cands@.len() - j,
    {
        proof {
            assert(cands@.take(j + 1).drop_last() =~= cands@.take(j as int));
            assert(cands@.take(j + 1).last() == cands@[j as int]);
        }
        let c = count_older(&cands, &cands[j]);
        if c < stale {
            let name = cands[j].name.clone();
            let ghost before = out@;
            out.push(name);
            proof {
                assert(string_views(out@) =~= string_views(before).push(cands@[j as int].name@));
            }
        }
        j += 1;
    }
    proof {
        assert(cands@.take(j as int) =~= cands@);
    }
    out
}

/// The newest web log: a log entry that no other log entry is newer than.
pub fn latest_web_log(entries: &Vec<WebLogEntry>) -> (r: Option<String>)
    ensures
        r is None <==> forall|j: int|
            0 <= j < entries@.len() ==> !is_web_log_name_spec(#[trigger] entries@[j].name@),
        r matches Some(name) ==> exists|j: int|
            0 <= j < entries@.len() && is_web_log_name_spec(#[trigger] entries@[j].name@)
                && entries@[j].name@ == name@ && forall|m: int|
                0 <= m < entries@.len() && is_web_log_name_spec(#[trigger] entries@[m].name@)
                    ==> !log_lt(entries@[j], entries@[m]),
{
    let mut best: Option<usize> = None;
    let mut i: usize = 0;
    while i < entries.len()
        invariant
            i <= entries@.len(),
            best is None <==> forall|j: int|
                0 <= j < i ==> !is_web_log_name_spec(#[trigger] entries@[j].name@),
            best matches Some(b) ==> b < i && is_web_log_name_spec(entries@[b as int].name@)
                && forall|m: int|
                0 <= m < i && is_web_log_name_spec(#[trigger] entries@[m].name@) ==> !log_lt(
                    entries@[b as int],
                    entries@[m],
                ),
        decreases entries@.len() - i,
    {
        if is_web_log_name(entries[i].name.as_str()) {
            match best {
                None => {
                    proof {
                        lemma_log_lt_irreflexive(entries@[i as int]);
                    }
                    best = Some(i);
                },
                Some(b) => {
                    if !log_less(&entries[i], &entries[b]) {
                        proof {
                            lemma_log_lt_total(entries@[b as int], entries@[i as int]);
                            assert forall|m: int|
                                0 <= m < i + 1 && is_web_log_name_spec(
                                    #[trigger] entries@[m].name@,
                                ) implies !log_lt(entries@[i as int], entries@[m]) by {
                                if m < i {
                                    if log_lt(entries@[b as int], entries@[i as int]) && log_lt(
                                        entries@[i as int],
                                        entries@[m],
                                    ) {
                                        lemma_log_lt_transitive(
                                            entries@[b as int],
                                            entries@[i as int],
                                            entries@[m],
                                        );
                                    }
                                } else {
                                    lemma_log_lt_irreflexive(entries@[i as int]);
                                }
                            }
                        }
                        best = Some(i);
                    } else {
                        proof {
                            lemma_log_lt_asymmetric(entries@[i as int], entries@[b as int]);
                        }
                    }
                },
            }
        }
        i += 1;
    }
    match best {
        Some(b) => Some(entries[b].name.clone()),
        None => None,
    }
}

/// No name comes before itself.
pub proof fn lemma_name_lt_irreflexive(a: Seq<char>)
    ensures
        !name_lt(a, a),
    decreases a.len(),
{
    if a.len() > 0 {
        lemma_name_lt_irreflexive(a.drop_first());
    }
}

/// Of two names, one comes first unless they are equal.
pub proof fn lemma_name_lt_total(a: Seq<char>, b: Seq<char>)
    ensures
        a != b ==> name_lt(a, b) || name_lt(b, a),
        !(name_lt(a, b) && name_lt(b, a)),
    decreases a.len(),
{
    if a.len() > 0 && b.len() > 0 {
        if a[0] == b[0] {
            lemma_name_lt_total(a.drop_first(), b.drop_first());
            if a != b {
                assert(a.drop_first() != b.drop_first()) by {
                    if a.drop_first() == b.drop_first() {
                        assert forall|k: int| 0 <= k < a.len() implies a[k] == b[k] by {
                            if k > 0 {
                                assert(a[k] == a.drop_first()[k - 1]);
                                assert(b[k] == b.drop_first()[k - 1]);
                            }
                        }
                        assert(a =~= b);
                    }
                }
            }
        }
    } else if a.len() == 0 && b.len() == 0 {
        assert(a =~= b);
    }
}

/// Name order is transitive.
pub proof fn lemma_name_lt_transitive(a: Seq<char>, b: Seq<char>, c: Seq<char>)
    requires
        name_lt(a, b),
        name_lt(b, c),
    ensures
        name_lt(a, c),
    decreases a.len(),
{
    if a.len() > 0 && b.len() > 0 && c.len() > 0 && a[0] == b[0] && b[0] == c[0] {
        lemma_name_lt_transitive(a.drop_first(), b.drop_first(), c.drop_first());
    }
}

/// No log is older than itself.
pub proof fn lemma_log_lt_irreflexive(a: WebLogEntry)
    ensures
        !log_lt(a, a),
{
    lemma_name_lt_irreflexive(a.name@);
}

/// Of two logs, at most one is older than the other; one is unless they
/// have the same time and name.
pub proof fn lemma_log_lt_total(a: WebLogEntry, b: WebLogEntry)
    ensures
        !(log_lt(a, b) && log_lt(b, a)),
        (a.modified_ns != b.modified_ns || a.name@ != b.name@) ==> log_lt(a, b) || log_lt(b, a),
{
    lemma_name_lt_total(a.name@, b.name@);
}

/// Log age order is asymmetric.
pub proof fn lemma_log_lt_asymmetric(a: WebLogEntry, b: WebLogEntry)
    ensures
        log_lt(a, b) ==> !log_lt(b, a),
{
    lemma_name_lt_total(a.name@, b.name@);
}

/// Log age order is transitive.
pub proof fn lemma_log_lt_transitive(a: WebLogEntry, b: WebLogEntry, c: WebLogEntry)
    requires
        log_lt(a, b),
        log_lt(b, c),
    ensures
        log_lt(a, c),
{
    if a.modified_ns == b.modified_ns && b.modified_ns == c.modified_ns {
        lemma_name_lt_transitive(a.name@, b.name@, c.name@);
    }
}

proof fn lemma_prunable_elements(es: Seq<WebLogEntry>, current: Seq<char>)
    ensures
        forall|k: int|
            0 <= k < prunable(es, current).len() ==> is_prunable(
                #[trigger] prunable(es, current)[k],
                current,
            ),
    decreases es.len(),
{
    if es.len() > 0 {
        let rest = es.drop_last();
        lemma_prunable_elements(rest, current);
        let p = prunable(es, current);
        let prev = prunable(rest, current);
        assert forall|k: int| 0 <= k < p.len() implies is_prunable(#[trigger] p[k], current) by {
            if k < prev.len() {
                assert(p[k] == prev[k]);
            }
        }
    }
}

proof fn lemma_stale_names_come_from(cands: Seq<WebLogEntry>, all: Seq<WebLogEntry>, stale: int)
    ensures
        forall|k: int|
            0 <= k < stale_names(cands, all, stale).len() ==> exists|j: int|
                0 <= j < cands.len() && #[trigger] stale_names(cands, all, stale)[k]
                    == cands[j].name@,
    decreases cands.len(),
{
    if cands.len() > 0 {
        let rest = cands.drop_last();
        lemma_stale_names_come_from(rest, all, stale);
        let names = stale_names(cands, all, stale);
        assert forall|k: int| 0 <= k < names.len() implies exists|j: int|
            0 <= j < cands.len() && #[trigger] names[k] == cands[j].name@ by {
            let prev = stale_names(rest, all, stale);
            if k < prev.len() {
                let j = choose|j: int| 0 <= j < rest.len() && prev[k] == rest[j].name@;
                assert(cands[j] == rest[j]);
            } else {
                assert(names[k] == cands[cands.len() - 1].name@);
            }
        }
    }
}

/// Pruning never deletes the log of the running start, nor a file that is no
/// web log: every name it picks is a web log other than `current`.
pub proof fn law_prune_spares_current_and_other_files(entries: Seq<WebLogEntry>, current: Seq<char>)
    ensures
        ({
            let cands = prunable(entries, current);
            let stale = stale_names(cands, cands, stale_count(cands.len()));
            forall|k: int|
                0 <= k < stale.len() ==> #[trigger] stale[k] != current && is_web_log_name_spec(
                    stale[k],
                )
        }),
{
    let cands = prunable(entries, current);
    let stale = stale_names(cands, cands, stale_count(cands.len()));
    lemma_prunable_elements(entries, current);
    lemma_stale_names_come_from(cands, cands, stale_count(cands.len()));
    assert forall|k: int| 0 <= k < stale.len() implies #[trigger] stale[k] != current
        && is_web_log_name_spec(stale[k]) by {
        let j = choose|j: int| 0 <= j < cands.len() && stale[k] == cands[j].name@;
        assert(is_prunable(cands[j], current));
    }
}

/// The name of the web log of a start at `secs` (Unix seconds): a second
/// start within the same second gets a sequence number from 2 on.
pub open spec fn web_log_name_spec(secs: u64, seq: Option<u32>) -> Seq<char> {
    match seq {
        None => DSH_WEB_LOG_PREFIX@ + decimal(secs as nat) + ".log"@,
        Some(n) => DSH_WEB_LOG_PREFIX@ + decimal(secs as nat) + "-"@ + decimal(n as nat) + ".log"@,
    }
}

/// Writes [`web_log_name_spec`].
pub fn web_log_name(secs: u64, seq: Option<u32>) -> (r: String)
    ensures
        r@ == web_log_name_spec(secs, seq),
{
    let mut out = String::new();
    push_str(&mut out, DSH_WEB_LOG_PREFIX);
    push_decimal(&mut out, secs);
    match seq {
        Some(n) => {
            push_str(&mut out, "-");
            push_decimal(&mut out, n as u64);
        },
        None => {},
    }
    push_str(&mut out, ".log");
    out
}

/// Every log the runtime names is recognised as a web log, so that pruning
/// and the crash reason find it.
pub proof fn law_web_log_names_are_recognised(secs: u64, seq: Option<u32>)
    ensures
        is_web_log_name_spec(web_log_name_spec(secs, seq)),
{
    let name = web_log_name_spec(secs, seq);
    let prefix = DSH_WEB_LOG_PREFIX@;
    let suffix = ".log"@;
    let mid = match seq {
        None => decimal(secs as nat),
        Some(n) => decimal(secs as nat) + "-"@ + decimal(n as nat),
    };
    assert(name =~= prefix + mid + suffix);
    assert(name.subrange(0, prefix.len() as int) =~= prefix);
    assert(name.subrange(name.len() - suffix.len(), name.len() as int) =~= suffix);
}

/// The error of a start whose process exited before it was ready: the exit
/// status, and the log's fatal error line when there is one.
pub open spec fn startup_exit_error_spec(status: Seq<char>, log_text: Seq<char>) -> Seq<char> {
    match fatal_error(log_text) {
        Some(detail) => "dsh web exited during startup ("@ + status + "): "@ + detail,
        None => "dsh web exited during startup ("@ + status + ")"@,
    }
}

/// Writes [`startup_exit_error_spec`] for the exit status text `status`.
pub fn startup_exit_error(status: &str, log_text: &str) -> (r: String)
    ensures
        r@ == startup_exit_error_spec(status@, log_text@),
{
    let mut out = String::new();
    push_str(&mut out, "dsh web exited during startup (");
    push_str(&mut out, status);
    match extract_fatal_error(log_text) {
        Some(detail) => {
            push_str(&mut out, "): ");
            push_str(&mut out, detail.as_str());
        },
        None => {
            push_str(&mut out, ")");
        },
    }
    out
}

/// How long a start may take before it is given up (milliseconds).
pub const STARTUP_TIMEOUT_MS: u64 = 120000;

/// How long to wait between two looks at a starting process (milliseconds).
pub const PROBE_INTERVAL_MS: u64 = 500;

/// What to do next while waiting for a start to become ready.
#[derive(Debug)]
pub enum StartupWaitAction {
    /// The start failed with `error`.
    Fail { error: String },
    /// The log names `url`: ask it whether the server answers.
    Probe { url: String },
    /// Nothing to go on yet: look again after [`PROBE_INTERVAL_MS`].
    Wait,
}

/// One look at a starting process: `exit_status` is the text of its exit
/// status when it has exited, `elapsed_ms` the time since the start began, and
/// `log_text` what it has logged. An exit fails the start at once with the
/// log's fatal error; past [`STARTUP_TIMEOUT_MS`] it times out; else the ready
/// URL of the log, if any, is to be probed.
pub fn startup_wait_step(exit_status: Option<&str>, elapsed_ms: u64, log_text: &str) -> (r:
    StartupWaitAction)
    ensures
        match exit_status {
            Some(status) => r matches StartupWaitAction::Fail { error } && error@
                == startup_exit_error_spec(status@, log_text@),
            None => if elapsed_ms > STARTUP_TIMEOUT_MS {
                r matches StartupWaitAction::Fail { error } && error@
                    == "dsh web did not become ready within 120s"@
            } else {
                match ready_url(log_text@) {
                    Some(u) => r matches StartupWaitAction::Probe { url } && url@ == u,
                    None => r is Wait,
                }
            },
        },
{
    if let Some(status) = exit_status {
        return StartupWaitAction::Fail { error: startup_exit_error(status, log_text) };
    }
    if elapsed_ms > STARTUP_TIMEOUT_MS {
        let mut error = String::new();
        push_str(&mut error, "dsh web did not become ready within 120s");
        return StartupWaitAction::Fail { error };
    }
    match parse_ready_url(log_text) {
        Some(url) => StartupWaitAction::Probe { url },
        None => StartupWaitAction::Wait,
    }
}

/// Whether a probe's answer means the server is ready: any success (2xx)
/// or redirection (3xx; the token URL answers with a redirect that sets the
/// session cookie). No answer means not ready.
pub fn probe_means_ready(status: Option<u16>) -> (r: bool)
    ensures
        r == (status matches Some(code) && 200 <= code <= 399),
{
    match status {
        Some(code) => 200 <= code && code <= 399,
        None => false,
    }
}

/// No two entries share a name (the files of one directory).
pub open spec fn distinct_names(es: Seq<WebLogEntry>) -> bool {
    forall|i: int, j: int| 0 <= i < j < es.len() ==> es[i].name@ != es[j].name@
}

proof fn lemma_prunable_from(es: Seq<WebLogEntry>, current: Seq<char>)
    ensures
        forall|k: int|
            0 <= k < prunable(es, current).len() ==> exists|j: int|
                0 <= j < es.len() && #[trigger] prunable(es, current)[k] == es[j],
    decreases es.len(),
{
    if es.len() > 0 {
        let rest = es.drop_last();
        lemma_prunable_from(rest, current);
        let p = prunable(es, current);
        let prev = prunable(rest, current);
        assert forall|k: int| 0 <= k < p.len() implies exists|j: int|
            0 <= j < es.len() && #[trigger] p[k] == es[j] by {
            if k < prev.len() {
                let j = choose|j: int| 0 <= j < rest.len() && prev[k] == rest[j];
                assert(p[k] == prev[k]);
                assert(es[j] == rest[j]);
            } else {
                assert(p[k] == es[es.len() - 1]);
            }
        }
    }
}

proof fn lemma_prunable_distinct(es: Seq<WebLogEntry>, current: Seq<char>)
    requires
        distinct_names(es),
    ensures
        distinct_names(prunable(es, current)),
    decreases es.len(),
{
    if es.len() > 0 {
        let rest = es.drop_last();
        assert(distinct_names(rest)) by {
            assert forall|i: int, j: int| 0 <= i < j < rest.len() implies rest[i].name@
                != rest[j].name@ by {
                assert(rest[i] == es[i] && rest[j] == es[j]);
            }
        }
        lemma_prunable_distinct(rest, current);
        lemma_prunable_from(rest, current);
        let prev = prunable(rest, current);
        let last = es[es.len() - 1];
        if is_prunable(last, current) {
            let p = prunable(es, current);
            assert forall|i: int, j: int| 0 <= i < j < p.len() implies p[i].name@ != p[j].name@ by {
                if j < prev.len() {
                    assert(p[i] == prev[i] && p[j] == prev[j]);
                } else {
                    assert(p[j] == last);
                    assert(p[i] == prev[i]);
                    let m = choose|m: int| 0 <= m < rest.len() && prev[i] == rest[m];
                    assert(rest[m] == es[m]);
                }
            }
        }
    }
}

proof fn lemma_older_count_concat(a: Seq<WebLogEntry>, b: Seq<WebLogEntry>, x: WebLogEntry)
    ensures
        older_count(a + b, x) == older_count(a, x) + older_count(b, x),
    decreases b.len(),
{
    if b.len() == 0 {
        assert(a + b =~= a);
    } else {
        assert((a + b).drop_last() =~= a + b.drop_last());
        lemma_older_count_concat(a, b.drop_last(), x);
    }
}

proof fn lemma_stale_len_concat(a: Seq<WebLogEntry>, b: Seq<WebLogEntry>, all: Seq<WebLogEntry>, s: int)
    ensures
        stale_names(a + b, all, s).len() == stale_names(a, all, s).len() + stale_names(
            b,
            all,
            s,
        ).len(),
    decreases b.len(),
{
    if b.len() == 0 {
        assert(a + b =~= a);
    } else {
        assert((a + b).drop_last() =~= a + b.drop_last());
        lemma_stale_len_concat(a, b.drop_last(), all, s);
    }
}

proof fn lemma_stale_len_pointwise(
    c: Seq<WebLogEntry>,
    all1: Seq<WebLogEntry>,
    all2: Seq<WebLogEntry>,
    s: int,
)
    requires
        forall|k: int| 0 <= k < c.len() ==> older_count(all1, #[trigger] c[k]) == older_count(all2, c[k]),
    ensures
        stale_names(c, all1, s).len() == stale_names(c, all2, s).len(),
    decreases c.len(),
{
    if c.len() > 0 {
        let rest = c.drop_last();
        assert forall|k: int| 0 <= k < rest.len() implies older_count(all1, #[trigger] rest[k])
            == older_count(all2, rest[k]) by {
            assert(rest[k] == c[k]);
        }
        lemma_stale_len_pointwise(rest, all1, all2, s);
        assert(older_count(all1, c[c.len() - 1]) == older_count(all2, c[c.len() - 1]));
    }
}

proof fn lemma_older_count_all_below(es: Seq<WebLogEntry>, m: WebLogEntry)
    requires
        forall|k: int| 0 <= k < es.len() ==> log_lt(#[trigger] es[k], m),
    ensures
        older_count(es, m) == es.len(),
    decreases es.len(),
{
    if es.len() > 0 {
        let rest = es.drop_last();
        assert forall|k: int| 0 <= k < rest.len() implies log_lt(#[trigger] rest[k], m) by {
            assert(rest[k] == es[k]);
        }
        lemma_older_count_all_below(rest, m);
    }
}

/// Entry `k` is newer than every other entry of `es`.
spec fn is_newest(es: Seq<WebLogEntry>, k: int) -> bool {
    0 <= k < es.len() && forall|j: int| 0 <= j < es.len() && j != k ==> log_lt(#[trigger] es[j], es[k])
}

proof fn lemma_newest_exists(es: Seq<WebLogEntry>)
    requires
        es.len() > 0,
        distinct_names(es),
    ensures
        exists|k: int| is_newest(es, k),
    decreases es.len(),
{
    let n = es.len();
    if n == 1 {
        assert(is_newest(es, 0));
    } else {
        let rest = es.drop_last();
        assert(distinct_names(rest)) by {
            assert forall|i: int, j: int| 0 <= i < j < rest.len() implies rest[i].name@
                != rest[j].name@ by {
                assert(rest[i] == es[i] && rest[j] == es[j]);
            }
        }
        lemma_newest_exists(rest);
        let k = choose|k: int| is_newest(rest, k);
        let last = es[n - 1];
        assert(rest[k] == es[k]);
        lemma_log_lt_total(es[k], last);
        if log_lt(es[k], last) {
            assert forall|j: int| 0 <= j < n && j != n - 1 implies log_lt(#[trigger] es[j], es[n - 1]) by {
                if j != k {
                    assert(rest[j] == es[j]);
                    lemma_log_lt_transitive(es[j], es[k], last);
                }
            }
            assert(is_newest(es, n - 1));
        } else {
            assert forall|j: int| 0 <= j < n && j != k implies log_lt(#[trigger] es[j], es[k]) by {
                if j < n - 1 {
                    assert(rest[j] == es[j]);
                }
            }
            assert(is_newest(es, k));
        }
    }
}

/// Of `all` (distinct names), exactly `min(s, all.len())` logs have fewer
/// than `s` older ones.
proof fn lemma_stale_len_exact(all: Seq<WebLogEntry>, s: int)
    requires
        distinct_names(all),
        0 <= s,
    ensures
        stale_names(all, all, s).len() == if s < all.len() {
            s
        } else {
            all.len() as int
        },
    decreases all.len(),
{
    let n = all.len();
    if n == 0 {
    } else {
        lemma_newest_exists(all);
        let k = choose|k: int| is_newest(all, k);
        let m = all[k];
        let a = all.take(k);
        let b = all.skip(k + 1);
        let rest = a + b;
        assert(all =~= a + seq![m] + b);
        assert forall|j: int| 0 <= j < rest.len() implies #[trigger] rest[j] == (if j < k {
            all[j]
        } else {
            all[j + 1]
        }) by {}
        assert(distinct_names(rest)) by {
            assert forall|i: int, j: int| 0 <= i < j < rest.len() implies rest[i].name@
                != rest[j].name@ by {}
        }
        // the newest has all others below it
        assert forall|j: int| 0 <= j < rest.len() implies log_lt(#[trigger] rest[j], m) by {
            if j < k {
                assert(rest[j] == all[j]);
            } else {
                assert(rest[j] == all[j + 1]);
            }
        }
        lemma_older_count_all_below(rest, m);
        lemma_older_count_concat(a + seq![m], b, m);
        lemma_older_count_concat(a, seq![m], m);
        lemma_log_lt_irreflexive(m);
        assert(older_count(seq![m], m) == 0) by {
            assert(seq![m].drop_last() =~= Seq::<WebLogEntry>::empty());
            assert(older_count(Seq::<WebLogEntry>::empty(), m) == 0);
            assert(seq![m].last() == m);
            lemma_log_lt_irreflexive(m);
        }
        lemma_older_count_concat(a, b, m);
        assert(older_count(all, m) == n - 1);
        // the others count the same older logs in `all` as in `rest`
        assert forall|j: int| 0 <= j < rest.len() implies older_count(all, #[trigger] rest[j])
            == older_count(rest, rest[j]) by {
            let x = rest[j];
            lemma_older_count_concat(a + seq![m], b, x);
            lemma_older_count_concat(a, seq![m], x);
            lemma_older_count_concat(a, b, x);
            lemma_log_lt_asymmetric(x, m);
            assert(older_count(seq![m], x) == 0) by {
                assert(seq![m].drop_last() =~= Seq::<WebLogEntry>::empty());
                assert(older_count(Seq::<WebLogEntry>::empty(), x) == 0);
                assert(seq![m].last() == m);
                assert(log_lt(x, m));
                lemma_log_lt_asymmetric(x, m);
            }
        }
        lemma_stale_len_pointwise(rest, all, rest, s);
        lemma_stale_len_exact(rest, s);
        lemma_stale_len_concat(a + seq![m], b, all, s);
        lemma_stale_len_concat(a, seq![m], all, s);
        lemma_stale_len_concat(a, b, all, s);
        assert(stale_names(seq![m], all, s).len() == if n - 1 < s {
            1int
        } else {
            0int
        }) by {
            assert(seq![m].drop_last() =~= Seq::<WebLogEntry>::empty());
            assert(stale_names(Seq::<WebLogEntry>::empty(), all, s).len() == 0);
            assert(seq![m].last() == m);
            assert(older_count(all, m) == n - 1);
        }
    }
}

/// Pruning keeps the newest logs: with the current log taking one of the
/// [`DSH_WEB_LOG_KEEP`] places, exactly as many other logs are deleted as
/// exceed the rest of the places (none when they fit).
pub proof fn law_prune_keeps_the_allowed_number(entries: Seq<WebLogEntry>, current: Seq<char>)
    requires
        distinct_names(entries),
    ensures
        ({
            let cands = prunable(entries, current);
            let stale = stale_names(cands, cands, stale_count(cands.len()));
            &&& stale.len() == stale_count(cands.len())
            &&& cands.len() - stale.len() == if cands.len() < DSH_WEB_LOG_KEEP - 1 {
                cands.len() as int
            } else {
                DSH_WEB_LOG_KEEP - 1
            }
        }),
{
    let cands = prunable(entries, current);
    lemma_prunable_distinct(entries, current);
    lemma_stale_len_exact(cands, stale_count(cands.len()));
}

proof fn lemma_older_count_monotone(all: Seq<WebLogEntry>, a: WebLogEntry, b: WebLogEntry)
    requires
        log_lt(a, b),
    ensures
        older_count(all, a) + (if all.contains(a) {
            1int
        } else {
            0int
        }) <= older_count(all, b),
    decreases all.len(),
{
    if all.len() > 0 {
        let rest = all.drop_last();
        let x = all.last();
        lemma_older_count_monotone(rest, a, b);
        lemma_log_lt_irreflexive(a);
        if log_lt(x, a) {
            lemma_log_lt_transitive(x, a, b);
        }
        assert(all =~= rest.push(x));
        if all.contains(a) && x != a {
            let i = choose|i: int| 0 <= i < all.len() && all[i] == a;
            assert(i < rest.len());
            assert(rest[i] == a);
        }
        if rest.contains(a) {
            let i = choose|i: int| 0 <= i < rest.len() && rest[i] == a;
            assert(all[i] == a);
        }
        if x == a {
            assert(all[all.len() - 1] == a);
        }
    }
}

/// Pruning deletes the oldest logs: a log older than one that is deleted is
/// deleted as well.
pub proof fn law_prune_deletes_the_oldest(entries: Seq<WebLogEntry>, current: Seq<char>, i: int, j: int)
    requires
        0 <= i < prunable(entries, current).len(),
        0 <= j < prunable(entries, current).len(),
        log_lt(prunable(entries, current)[i], prunable(entries, current)[j]),
        older_count(prunable(entries, current), prunable(entries, current)[j]) < stale_count(
            prunable(entries, current).len(),
        ),
    ensures
        older_count(prunable(entries, current), prunable(entries, current)[i]) < stale_count(
            prunable(entries, current).len(),
        ),
{
    let cands = prunable(entries, current);
    lemma_older_count_monotone(cands, cands[i], cands[j]);
    assert(cands.contains(cands[i]));
}

} // verus!
