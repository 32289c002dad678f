//! The git plumbing behind code review: hunk headers of unified diffs, the
//! branch list with the main branch first, `git status --porcelain=v2 -z`
//! entries, and `git cat-file --batch` output.

use vstd::prelude::*;

use vstd::std_specs::iter::IteratorSpec;

use crate::lines::{split_on, split_on_exec};
use crate::pid_record::{all_digits, digit_value, digits_value, is_digit};
use crate::text::{
    find_char, find_char_exec, find_sub, find_sub_exec, from_chars, has_prefix, lemma_find_sub_none,
    slice_range, split_once, starts_with, to_chars,
};

verus! {

/// Namespace of the diff-state parsers.
pub struct DiffStateModel;

/// A parse error.
#[derive(Debug, Clone, PartialEq, Eq)]
pub struct DiffParseError {
    pub message: String,
}

/// The line ranges of a hunk: `@@ -old_start[,old_count] +new_start[,new_count] @@`.
#[derive(Debug, Clone, Copy, PartialEq, Eq, Structural)]
pub struct UnifiedDiffHeader {
    pub old_start_line: usize,
    pub old_line_count: usize,
    pub new_start_line: usize,
    pub new_line_count: usize,
}

/// `usize::from_str`: an optional `+`, then one or more decimal digits, with
/// a value that fits.
pub open spec fn parse_usize(s: Seq<char>) -> Option<usize> {
    let ds = if s.len() > 0 && s[0] == '+' {
        s.drop_first()
    } else {
        s
    };
    if ds.len() > 0 && all_digits(ds) && digits_value(ds) <= usize::MAX {
        Some(digits_value(ds) as usize)
    } else {
        None
    }
}

/// Parses a decimal `usize` as `str::parse::<usize>` does.
pub fn parse_usize_exec(s: &[char]) -> (r: Option<usize>)
    ensures
        r == parse_usize(s@),
{
    let n = s.len();
    let signed = n > 0 && s[0] == '+';
    let first: usize = if signed {
        1
    } else {
        0
    };
    let ghost ds = if signed {
        s@.drop_first()
    } else {
        s@
    };
    if first == n {
        return None;
    }
    let mut acc: usize = 0;
    let mut big = false;
    let mut k: usize = first;
    proof {
        assert(ds.take(0) =~= Seq::<char>::empty());
    }
    while k < n
        invariant
            first <= k <= n,
            n == s@.len(),
            ds =~= s@.skip(first as int),
            ds == (if signed {
                s@.drop_first()
            } else {
                s@
            }),
            signed == (s@.len() > 0 && s@[0] == '+'),
            forall|j: int| 0 <= j < k - first ==> is_digit(#[trigger] ds[j]),
            !big ==> acc == digits_value(ds.take(k - first)),
            big ==> digits_value(ds.take(k - first)) > usize::MAX,
            digits_value(ds.take(k - first)) >= 0,
        decreases n - k,
    {
        let c = s[k];
        if !('0' <= c && c <= '9') {
            proof {
                assert(ds[k - first] == c);
                assert(!is_digit(ds[k - first]));
                assert(!all_digits(ds));
            }
            return None;
        }
        let d = (c as u32 - '0' as u32) as usize;
        proof {
            let dk = ds.take(k + 1 - first);
            assert(dk.drop_last() =~= ds.take(k - first));
            assert(dk.last() == c);
            assert(d == digit_value(c));
            assert(digits_value(dk) == 10 * digits_value(ds.take(k - first)) + d);
        }
        if !big {
            match acc.checked_mul(10) {
                Some(m) => match m.checked_add(d) {
                    Some(v) => {
                        acc = v;
                    },
                    None => {
                        big = true;
                    },
                },
                None => {
                    big = true;
                },
            }
        }
        k += 1;
    }
    proof {
        assert(ds.take(n - first) =~= ds);
        assert(all_digits(ds));
    }
    if big {
        return None;
    }
    Some(acc)
}

/// `start[,count]`, the count defaulting to one.
pub open spec fn range_spec(s: Seq<char>) -> Option<(usize, usize)> {
    match split_once(s, ',') {
        Some((a, b)) => match (parse_usize(a), parse_usize(b)) {
            (Some(x), Some(y)) => Some((x, y)),
            _ => None,
        },
        None => match parse_usize(s) {
            Some(x) => Some((x, 1)),
            None => None,
        },
    }
}

/// The hunk header's ranges: after `@@ `, up to the next ` @@`, an old range
/// after `-` and a new range after `+`, one space apart.
pub open spec fn header_spec(h: Seq<char>) -> Option<UnifiedDiffHeader> {
    if !has_prefix(h, "@@ "@) {
        None
    } else {
        let body = h.skip(3);
        match find_sub(body, " @@"@) {
            None => None,
            Some(j) => match split_once(body.take(j), ' ') {
                None => None,
                Some((old, new)) => if old.len() > 0 && old[0] == '-' && new.len() > 0 && new[0]
                    == '+' {
                    match (range_spec(old.drop_first()), range_spec(new.drop_first())) {
                        (Some(a), Some(b)) => Some(
                            UnifiedDiffHeader {
                                old_start_line: a.0,
                                old_line_count: a.1,
                                new_start_line: b.0,
                                new_line_count: b.1,
                            },
                        ),
                        _ => None,
                    }
                } else {
                    None
                },
            },
        }
    }
}

/// The error of a malformed header or range.
fn parse_error(what: &str) -> (r: DiffParseError)
    ensures
        r.message@ == what@,
{
    DiffParseError { message: from_chars(&to_chars(what)) }
}

/// The text before the first `c` and the text after it, if there is one.
fn split_once_chars(s: &Vec<char>, c: char) -> (r: Option<(Vec<char>, Vec<char>)>)
    ensures
        match split_once(s@, c) {
            Some((a, b)) => r matches Some(p) && p.0@ == a && p.1@ == b,
            None => r is None,
        },
{
    let n = s.len();
    match find_char_exec(s, c) {
        Some(i) => {
            assert(i < n);
            let a = slice_range(s, 0, i);
            let b = slice_range(s, i + 1, n);
            proof {
                assert(a@ =~= s@.take(i as int));
                assert(b@ =~= s@.skip(i + 1));
            }
            Some((a, b))
        },
        None => None,
    }
}

/// Parses `start[,count]`.
fn range_exec(s: &Vec<char>) -> (r: Option<(usize, usize)>)
    ensures
        r == range_spec(s@),
{
    match split_once_chars(s, ',') {
        Some((a, b)) => match (parse_usize_exec(&a), parse_usize_exec(&b)) {
            (Some(x), Some(y)) => Some((x, y)),
            _ => None,
        },
        None => match parse_usize_exec(s) {
            Some(x) => Some((x, 1)),
            None => None,
        },
    }
}

impl DiffStateModel {
    /// Parses a hunk range `start[,count]` (the count defaults to one).
    pub fn parse_range(range: &str) -> (r: Result<(usize, usize), DiffParseError>)
        ensures
            match range_spec(range@) {
                Some(p) => r == Ok::<(usize, usize), DiffParseError>(p),
                None => r is Err,
            },
    {
        match range_exec(&to_chars(range)) {
            Some(p) => Ok(p),
            None => Err(parse_error("invalid hunk range")),
        }
    }

    /// Parses a hunk header such as `@@ -10,5 +12,7 @@ fn main() {`.
    pub fn parse_unified_diff_header(header: &str) -> (r: Result<UnifiedDiffHeader, DiffParseError>)
        ensures
            match header_spec(header@) {
                Some(h) => r == Ok::<UnifiedDiffHeader, DiffParseError>(h),
                None => r is Err,
            },
    {
        let h = to_chars(header);
        let n = h.len();
        proof {
            reveal_strlit("@@ ");
            reveal_strlit(" @@");
        }
        if !starts_with(&h, &to_chars("@@ ")) {
            return Err(parse_error("not a hunk header"));
        }
        let body = slice_range(&h, 3, n);
        proof {
            assert(body@ =~= header@.skip(3));
        }
        let close = to_chars(" @@");
        let j = match find_sub_exec(&body, &close) {
            Some(j) => j,
            None => return Err(parse_error("hunk header is not closed")),
        };
        proof {
            lemma_find_sub_none(body@, close@);
        }
        let inner = slice_range(&body, 0, j);
        proof {
            assert(inner@ =~= body@.take(j as int));
        }
        let (old, new) = match split_once_chars(&inner, ' ') {
            Some(p) => p,
            None => return Err(parse_error("hunk header lacks a range")),
        };
        if !(old.len() > 0 && old[0] == '-' && new.len() > 0 && new[0] == '+') {
            return Err(parse_error("hunk header ranges are not marked"));
        }
        let old_range = slice_range(&old, 1, old.len());
        let new_range = slice_range(&new, 1, new.len());
        proof {
            assert(old_range@ =~= old@.drop_first());
            assert(new_range@ =~= new@.drop_first());
        }
        match (range_exec(&old_range), range_exec(&new_range)) {
            (Some(a), Some(b)) => Ok(
                UnifiedDiffHeader {
                    old_start_line: a.0,
                    old_line_count: a.1,
                    new_start_line: b.0,
                    new_line_count: b.1,
                },
            ),
            _ => Err(parse_error("invalid hunk range")),
        }
    }

    /// The branches (name, is-main) with the main branch(es) first; each part
    /// keeps its order (the rest stay in recency order).
    pub fn sort_branches_main_first<'a>(branches: &'a [(String, bool)]) -> (r: std::vec::IntoIter<
        &'a (String, bool),
    >)
        ensures
            r.remaining().len() == branches@.len(),
            forall|i: int|
                0 <= i < branches@.len() ==> *r.remaining()[i] == main_first(branches@)[i],
    {
        let v = main_first_refs(branches);
        proof {
            broadcast use vstd::std_specs::vec::axiom_spec_into_iter;
        }
        v.into_iter()
    }
}

/// Main branches first, then the others, each in the given order.
pub open spec fn main_first(bs: Seq<(String, bool)>) -> Seq<(String, bool)> {
    bs.filter(is_main()) + bs.filter(not_main())
}

/// A branch flagged as main.
pub open spec fn is_main() -> spec_fn((String, bool)) -> bool {
    |b: (String, bool)| b.1
}

/// A branch not flagged as main.
pub open spec fn not_main() -> spec_fn((String, bool)) -> bool {
    |b: (String, bool)| !b.1
}

/// References to the branches, main branches first.
fn main_first_refs<'a>(branches: &'a [(String, bool)]) -> (r: Vec<&'a (String, bool)>)
    ensures
        r@.len() == branches@.len(),
        forall|i: int| 0 <= i < branches@.len() ==> *r@[i] == main_first(branches@)[i],
{
    let mut out: Vec<&'a (String, bool)> = Vec::new();
    proof {
        reveal(Seq::filter);
        assert(branches@.take(0).filter(is_main()) =~= Seq::<(String, bool)>::empty());
    }
    let mut i: usize = 0;
    while i < branches.len()
        invariant
            i <= branches@.len(),
            out@.len() == branches@.take(i as int).filter(is_main()).len(),
            forall|k: int|
                0 <= k < out@.len() ==> *out@[k] == branches@.take(i as int).filter(is_main())[k],
        decreases branches@.len() - i,
    {
        proof {
            assert(branches@.take(i + 1).drop_last() =~= branches@.take(i as int));
            assert(branches@.take(i + 1).last() == branches@[i as int]);
            reveal(Seq::filter);
        }
        if branches[i].1 {
            out.push(&branches[i]);
        }
        i += 1;
    }
    proof {
        assert(branches@.take(i as int) =~= branches@);
    }
    let ghost first_len = out@.len();
    proof {
        reveal(Seq::filter);
        assert(branches@.take(0).filter(not_main()) =~= Seq::<(String, bool)>::empty());
    }
    let mut j: usize = 0;
    while j < branches.len()
        invariant
            j <= branches@.len(),
            first_len == branches@.filter(is_main()).len(),
            out@.len() == first_len + branches@.take(j as int).filter(not_main()).len(),
            forall|k: int| 0 <= k < first_len ==> *out@[k] == branches@.filter(is_main())[k],
            forall|k: int|
                first_len <= k < out@.len() ==> *out@[k] == branches@.take(j as int).filter(not_main())[k - first_len],
        decreases branches@.len() - j,
    {
        proof {
            assert(branches@.take(j + 1).drop_last() =~= branches@.take(j as int));
            assert(branches@.take(j + 1).last() == branches@[j as int]);
            reveal(Seq::filter);
        }
        if !branches[j].1 {
            out.push(&branches[j]);
        }
        j += 1;
    }
    proof {
        assert(branches@.take(j as int) =~= branches@);
        branches@.lemma_filter_len(is_main());
        lemma_partition_len(branches@);
    }
    out
}

/// The two parts of a partition add up to the whole.
proof fn lemma_partition_len(bs: Seq<(String, bool)>)
    ensures
        bs.filter(is_main()).len() + bs.filter(not_main()).len() == bs.len(),
    decreases bs.len(),
{
    reveal(Seq::filter);
    if bs.len() > 0 {
        lemma_partition_len(bs.drop_last());
    }
}

/// The state of a changed file.
#[derive(Debug, Clone, PartialEq, Eq)]
pub enum GitFileStatus {
    New,
    Modified,
    Deleted,
    Renamed { old_path: String },
    Untracked,
    Conflicted,
}

/// The mathematical form of a [`GitFileStatus`].
pub enum GitStatusView {
    New,
    Modified,
    Deleted,
    Renamed(Seq<char>),
    Untracked,
    Conflicted,
}

impl View for GitFileStatus {
    type V = GitStatusView;

    open spec fn view(&self) -> GitStatusView {
        match self {
            GitFileStatus::New => GitStatusView::New,
            GitFileStatus::Modified => GitStatusView::Modified,
            GitFileStatus::Deleted => GitStatusView::Deleted,
            GitFileStatus::Renamed { old_path } => GitStatusView::Renamed(old_path@),
            GitFileStatus::Untracked => GitStatusView::Untracked,
            GitFileStatus::Conflicted => GitStatusView::Conflicted,
        }
    }
}

/// The text after the first `n` space-separated fields (`splitn(n + 1, ' ')`'s
/// last part); `None` with fewer fields.
pub open spec fn fields_after(s: Seq<char>, n: nat) -> Option<Seq<char>>
    decreases n,
{
    if n == 0 {
        Some(s)
    } else {
        match split_once(s, ' ') {
            Some((_, rest)) => fields_after(rest, (n - 1) as nat),
            None => None,
        }
    }
}

/// The `XY` field of an ordinary entry (its second field).
pub open spec fn xy_field(record: Seq<char>) -> Seq<char> {
    match fields_after(record, 1) {
        Some(t) => match split_once(t, ' ') {
            Some((xy, _)) => xy,
            None => t,
        },
        None => seq![],
    }
}

/// The state an ordinary entry's `XY` stands for: added on either side is
/// new, deleted on either side is deleted, anything else is modified.
pub open spec fn xy_status(xy: Seq<char>) -> GitStatusView {
    if xy.contains('A') {
        GitStatusView::New
    } else if xy.contains('D') {
        GitStatusView::Deleted
    } else {
        GitStatusView::Modified
    }
}

/// `Some(seq![x] + rest)` where `rest` parsed.
pub open spec fn prepend(
    x: (Seq<char>, GitStatusView),
    rest: Option<Seq<(Seq<char>, GitStatusView)>>,
) -> Option<Seq<(Seq<char>, GitStatusView)>> {
    match rest {
        Some(r) => Some(seq![x] + r),
        None => None,
    }
}

/// The entries of `git status --porcelain=v2 -z`, record by record: `1`
/// (ordinary, path after 8 fields), `2` (rename or copy, path after 9
/// fields, then the original path as the next record), `u` (unmerged, path
/// after 10 fields), `?` (untracked); other records (ignored files, headers)
/// and empty ones are skipped. Paths may hold spaces. `None` where an entry
/// lacks its fields.
pub open spec fn status_entries(recs: Seq<Seq<char>>) -> Option<Seq<(Seq<char>, GitStatusView)>>
    decreases recs.len(),
{
    if recs.len() == 0 {
        Some(seq![])
    } else {
        let r = recs[0];
        if has_prefix(r, "1 "@) {
            match fields_after(r, 8) {
                Some(path) => prepend((path, xy_status(xy_field(r))), status_entries(recs.drop_first())),
                None => None,
            }
        } else if has_prefix(r, "2 "@) {
            match fields_after(r, 9) {
                Some(path) => if recs.len() >= 2 {
                    prepend((path, GitStatusView::Renamed(recs[1])), status_entries(recs.skip(2)))
                } else {
                    None
                },
                None => None,
            }
        } else if has_prefix(r, "u "@) {
            match fields_after(r, 10) {
                Some(path) => prepend((path, GitStatusView::Conflicted), status_entries(recs.drop_first())),
                None => None,
            }
        } else if has_prefix(r, "? "@) {
            prepend((r.skip(2), GitStatusView::Untracked), status_entries(recs.drop_first()))
        } else {
            status_entries(recs.drop_first())
        }
    }
}

/// The views of parsed entries.
pub open spec fn entry_views(v: Seq<(String, GitFileStatus)>) -> Seq<(Seq<char>, GitStatusView)> {
    v.map_values(|e: (String, GitFileStatus)| (e.0@, e.1@))
}

/// Joins parsed entries with what the rest of the records parse to.
pub open spec fn join_entries(
    done: Seq<(Seq<char>, GitStatusView)>,
    rest: Option<Seq<(Seq<char>, GitStatusView)>>,
) -> Option<Seq<(Seq<char>, GitStatusView)>> {
    match rest {
        Some(r) => Some(done + r),
        None => None,
    }
}

/// The text after the first `n` fields, as [`fields_after`] says.
fn fields_after_exec(s: &Vec<char>, n: usize) -> (r: Option<Vec<char>>)
    ensures
        match fields_after(s@, n as nat) {
            Some(t) => r matches Some(v) && v@ == t,
            None => r is None,
        },
    decreases n,
{
    if n == 0 {
        return Some(slice_range(s, 0, s.len()));
    }
    match split_once_chars(s, ' ') {
        Some((_, rest)) => fields_after_exec(&rest, n - 1),
        None => None,
    }
}

/// Whether `s` holds `c`.
fn contains_char(s: &Vec<char>, c: char) -> (r: bool)
    ensures
        r == s@.contains(c),
{
    match find_char_exec(s, c) {
        Some(_) => true,
        None => {
            proof {
                crate::text::lemma_find_sub_none(s@, seq![c]);
                assert forall|j: int| 0 <= j < s@.len() implies s@[j] != c by {
                    crate::text::lemma_matches_single(s@, c, j);
                }
            }
            false
        },
    }
}

/// The state of an ordinary entry.
fn ordinary_status(record: &Vec<char>) -> (r: GitFileStatus)
    ensures
        r@ == xy_status(xy_field(record@)),
{
    let xy = match fields_after_exec(record, 1) {
        Some(t) => match split_once_chars(&t, ' ') {
            Some((x, _)) => x,
            None => t,
        },
        None => Vec::new(),
    };
    proof {
        if fields_after(record@, 1) is None {
            assert(xy@ =~= Seq::<char>::empty());
        }
    }
    if contains_char(&xy, 'A') {
        GitFileStatus::New
    } else if contains_char(&xy, 'D') {
        GitFileStatus::Deleted
    } else {
        GitFileStatus::Modified
    }
}

impl DiffStateModel {
    /// Parses `git status --porcelain=v2 -z` output into `(path, state)`
    /// pairs, as [`status_entries`] says of its NUL-separated records.
    pub fn parse_git_status(output: &str) -> (r: Result<Vec<(String, GitFileStatus)>, DiffParseError>)
        ensures
            match status_entries(split_on(output@, '\0')) {
                Some(es) => r matches Ok(v) && entry_views(v@) == es,
                None => r is Err,
            },
    {
        let recs = split_on_exec(output, '\0');
        let ghost rv = recs@.map_values(|v: Vec<char>| v@);
        let mut out: Vec<(String, GitFileStatus)> = Vec::new();
        let mut i: usize = 0;
        let one = to_chars("1 ");
        let two = to_chars("2 ");
        let unmerged = to_chars("u ");
        let untracked = to_chars("? ");
        proof {
            reveal_strlit("1 ");
            reveal_strlit("2 ");
            reveal_strlit("u ");
            reveal_strlit("? ");
            assert(rv.skip(0) =~= rv);
            assert(entry_views(out@) =~= Seq::<(Seq<char>, GitStatusView)>::empty());
        }
        while i < recs.len()
            invariant
                i <= recs@.len(),
                rv == recs@.map_values(|v: Vec<char>| v@),
                rv == split_on(output@, '\0'),
                one@ == "1 "@,
                two@ == "2 "@,
                unmerged@ == "u "@,
                untracked@ == "? "@,
                one@.len() == 2,
                untracked@.len() == 2,
                status_entries(rv) == join_entries(entry_views(out@), status_entries(rv.skip(i as int))),
            decreases recs@.len() - i,
        {
            let r = &recs[i];
            proof {
                assert(rv.skip(i as int)[0] == r@);
                assert(rv.skip(i as int).drop_first() =~= rv.skip(i + 1));
            }
            if starts_with(r, &one) {
                match fields_after_exec(r, 8) {
                    Some(path) => {
                        let st = ordinary_status(r);
                        let ghost before = out@;
                        out.push((from_chars(&path), st));
                        proof {
                            assert(entry_views(out@) =~= entry_views(before) + seq![(path@, st@)]);
                        }
                        i += 1;
                    },
                    None => {
                        return Err(parse_error("malformed git status entry"));
                    },
                }
            } else if starts_with(r, &two) {
                match fields_after_exec(r, 9) {
                    Some(path) => {
                        if i + 1 >= recs.len() {
                            return Err(parse_error("rename entry without its original path"));
                        }
                        let old_path = from_chars(&recs[i + 1]);
                        let ghost before = out@;
                        out.push((from_chars(&path), GitFileStatus::Renamed { old_path }));
                        proof {
                            assert(rv.skip(i as int)[1] == recs@[i + 1]@);
                            assert(rv.skip(i as int).skip(2) =~= rv.skip(i + 2));
                            assert(entry_views(out@) =~= entry_views(before) + seq![
                                (path@, GitStatusView::Renamed(recs@[i + 1]@)),
                            ]);
                        }
                        i += 2;
                    },
                    None => {
                        return Err(parse_error("malformed git status entry"));
                    },
                }
            } else if starts_with(r, &unmerged) {
                match fields_after_exec(r, 10) {
                    Some(path) => {
                        let ghost before = out@;
                        out.push((from_chars(&path), GitFileStatus::Conflicted));
                        proof {
                            assert(entry_views(out@) =~= entry_views(before) + seq![
                                (path@, GitStatusView::Conflicted),
                            ]);
                        }
                        i += 1;
                    },
                    None => {
                        return Err(parse_error("malformed git status entry"));
                    },
                }
            } else if starts_with(r, &untracked) {
                let path = slice_range(r, 2, r.len());
                let ghost before = out@;
                out.push((from_chars(&path), GitFileStatus::Untracked));
                proof {
                    assert(path@ =~= r@.skip(2));
                    assert(entry_views(out@) =~= entry_views(before) + seq![
                        (r@.skip(2), GitStatusView::Untracked),
                    ]);
                }
                i += 1;
            } else {
                i += 1;
            }
        }
        proof {
            assert(rv.skip(i as int) =~= Seq::<Seq<char>>::empty());
            assert(entry_views(out@) + Seq::<(Seq<char>, GitStatusView)>::empty() =~= entry_views(out@));
        }
        Ok(out)
    }
}

} // verus!
