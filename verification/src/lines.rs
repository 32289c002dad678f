//! Lines and runs of characters.
//!
//! `split_lines` cuts text at each `'\n'`. It is the mathematical form of
//! `str::lines` for every use in this crate: each line is trimmed before it is
//! read, which also drops the `'\r'` of a `"\r\n"` ending, and the empty piece
//! after a final newline holds nothing that any reader looks for.

use vstd::prelude::*;

use crate::text::{is_ws, is_ws_exec, slice_range, to_chars};

verus! {

/// The length of the longest prefix of `s` whose characters all satisfy `keep`.
pub open spec fn run_len(s: Seq<char>, keep: spec_fn(char) -> bool) -> nat
    decreases s.len(),
{
    if s.len() > 0 && keep(s[0]) {
        1 + run_len(s.drop_first(), keep)
    } else {
        0
    }
}

/// `run_len` is the first position whose character fails `keep`, or the length.
pub proof fn lemma_run_len(s: Seq<char>, keep: spec_fn(char) -> bool)
    ensures
        run_len(s, keep) <= s.len(),
        forall|j: int| 0 <= j < run_len(s, keep) ==> #[trigger] keep(s[j]),
        run_len(s, keep) < s.len() ==> !keep(s[run_len(s, keep) as int]),
    decreases s.len(),
{
    if s.len() > 0 && keep(s[0]) {
        lemma_run_len(s.drop_first(), keep);
        assert forall|j: int| 0 <= j < run_len(s, keep) implies #[trigger] keep(s[j]) by {
            if j > 0 {
                assert(s[j] == s.drop_first()[j - 1]);
            }
        }
    }
}

/// A position before which every character satisfies `keep`, and at which one
/// fails it (or the text ends), is `run_len`.
pub proof fn lemma_run_len_is(s: Seq<char>, keep: spec_fn(char) -> bool, n: int)
    requires
        0 <= n <= s.len(),
        forall|j: int| 0 <= j < n ==> #[trigger] keep(s[j]),
        n < s.len() ==> !keep(s[n]),
    ensures
        run_len(s, keep) == n,
    decreases n,
{
    if n > 0 {
        assert(keep(s[0]));
        assert forall|j: int| 0 <= j < n - 1 implies #[trigger] keep(s.drop_first()[j]) by {
            assert(keep(s[j + 1]));
        }
        lemma_run_len_is(s.drop_first(), keep, n - 1);
    }
}

/// Not a line break.
pub open spec fn not_newline(c: char) -> bool {
    c != '\n'
}

/// Not white space.
pub open spec fn not_ws(c: char) -> bool {
    !is_ws(c)
}

/// The length of the first line of `s`.
pub open spec fn line_len(s: Seq<char>) -> nat {
    run_len(s, |c: char| not_newline(c))
}

/// The pieces of `s` between line breaks, in order.
pub open spec fn split_lines(s: Seq<char>) -> Seq<Seq<char>>
    decreases s.len(),
{
    let n = line_len(s);
    if n < s.len() {
        seq![s.take(n as int)] + split_lines(s.skip(n + 1int))
    } else {
        seq![s]
    }
}

/// The end of the line that starts at `start`: the index of the next `'\n'`,
/// or the length of `s`.
pub fn line_end(s: &[char], start: usize) -> (r: usize)
    requires
        start <= s@.len(),
    ensures
        start <= r <= s@.len(),
        r - start == line_len(s@.skip(start as int)),
{
    let mut k: usize = start;
    while k < s.len() && s[k] != '\n'
        invariant
            start <= k <= s@.len(),
            forall|j: int| start <= j < k ==> s@[j] != '\n',
        decreases s@.len() - k,
    {
        k += 1;
    }
    proof {
        let t = s@.skip(start as int);
        let keep = |c: char| not_newline(c);
        assert forall|j: int| 0 <= j < k - start implies #[trigger] keep(t[j]) by {
            assert(t[j] == s@[start + j]);
        }
        lemma_run_len_is(t, keep, k - start);
    }
    k
}

/// The lines of `s` from `start` on: the line that starts there, then the
/// lines after its line break.
pub proof fn lemma_split_lines_step(s: Seq<char>, start: int, end: int)
    requires
        0 <= start <= end <= s.len(),
        end - start == line_len(s.skip(start)),
    ensures
        end < s.len() ==> split_lines(s.skip(start)) == seq![s.subrange(start, end)]
            + split_lines(s.skip(end + 1)),
        end == s.len() ==> split_lines(s.skip(start)) == seq![s.subrange(start, end)],
{
    let t = s.skip(start);
    let n = line_len(t);
    if end < s.len() {
        assert(t.take(n as int) =~= s.subrange(start, end));
        assert(t.skip(n + 1int) =~= s.skip(end + 1));
    } else {
        assert(t =~= s.subrange(start, end));
    }
}

/// The length of the leading run of characters that are not white space.
pub open spec fn token_len(s: Seq<char>) -> nat {
    run_len(s, |c: char| not_ws(c))
}

/// The index of the first white space character at or after `start`, or the
/// length of `s`.
pub fn token_end(s: &[char], start: usize) -> (r: usize)
    requires
        start <= s@.len(),
    ensures
        start <= r <= s@.len(),
        r - start == token_len(s@.skip(start as int)),
{
    let mut k: usize = start;
    while k < s.len() && !is_ws_exec(s[k])
        invariant
            start <= k <= s@.len(),
            forall|j: int| start <= j < k ==> !is_ws(#[trigger] s@[j]),
        decreases s@.len() - k,
    {
        k += 1;
    }
    proof {
        let t = s@.skip(start as int);
        let keep = |c: char| not_ws(c);
        assert forall|j: int| 0 <= j < k - start implies #[trigger] keep(t[j]) by {
            assert(t[j] == s@[start + j]);
        }
        lemma_run_len_is(t, keep, k - start);
    }
    k
}

/// The length of the leading run of `s` without `sep`.
pub open spec fn piece_len(s: Seq<char>, sep: char) -> nat {
    run_len(s, other_than(sep))
}

/// The characters other than `sep`.
pub open spec fn other_than(sep: char) -> spec_fn(char) -> bool {
    |c: char| c != sep
}

/// The pieces of `s` between occurrences of `sep`, in order (`str::split`).
pub open spec fn split_on(s: Seq<char>, sep: char) -> Seq<Seq<char>>
    decreases s.len(),
{
    let n = piece_len(s, sep);
    if n < s.len() {
        seq![s.take(n as int)] + split_on(s.skip(n + 1int), sep)
    } else {
        seq![s]
    }
}

/// The end of the piece that starts at `start`: the index of the next
/// `sep`, or the length of `s`.
pub fn piece_end(s: &[char], start: usize, sep: char) -> (r: usize)
    requires
        start <= s@.len(),
    ensures
        start <= r <= s@.len(),
        r - start == piece_len(s@.skip(start as int), sep),
{
    let mut k: usize = start;
    while k < s.len() && s[k] != sep
        invariant
            start <= k <= s@.len(),
            forall|j: int| start <= j < k ==> s@[j] != sep,
        decreases s@.len() - k,
    {
        k += 1;
    }
    proof {
        let t = s@.skip(start as int);
        let keep = other_than(sep);
        assert forall|j: int| 0 <= j < k - start implies #[trigger] keep(t[j]) by {
            assert(t[j] == s@[start + j]);
        }
        lemma_run_len_is(t, keep, k - start);
    }
    k
}

/// The pieces of `s` from `start` on: the piece that starts there, then the
/// pieces after its separator.
pub proof fn lemma_split_on_step(s: Seq<char>, sep: char, start: int, end: int)
    requires
        0 <= start <= end <= s.len(),
        end - start == piece_len(s.skip(start), sep),
    ensures
        end < s.len() ==> split_on(s.skip(start), sep) == seq![s.subrange(start, end)] + split_on(
            s.skip(end + 1),
            sep,
        ),
        end == s.len() ==> split_on(s.skip(start), sep) == seq![s.subrange(start, end)],
{
    let t = s.skip(start);
    let n = piece_len(t, sep);
    if end < s.len() {
        assert(t.take(n as int) =~= s.subrange(start, end));
        assert(t.skip(n + 1int) =~= s.skip(end + 1));
    } else {
        assert(t =~= s.subrange(start, end));
    }
}


/// The pieces of `s` between occurrences of `sep`, as [`split_on`] says.
pub fn split_on_exec(s: &str, sep: char) -> (r: Vec<Vec<char>>)
    ensures
        r@.map_values(|v: Vec<char>| v@) == split_on(s@, sep),
{
    let cs = to_chars(s);
    let n = cs.len();
    let mut out: Vec<Vec<char>> = Vec::new();
    let mut start: usize = 0;
    proof {
        assert(cs@.skip(0) =~= cs@);
        assert(out@.map_values(|v: Vec<char>| v@) =~= Seq::<Seq<char>>::empty());
    }
    loop
        invariant
            start <= n,
            n == cs@.len(),
            cs@ == s@,
            out@.map_values(|v: Vec<char>| v@) + split_on(cs@.skip(start as int), sep) == split_on(
                s@,
                sep,
            ),
        decreases n - start,
    {
        let e = piece_end(&cs, start, sep);
        let piece = slice_range(&cs, start, e);
        proof {
            lemma_split_on_step(cs@, sep, start as int, e as int);
        }
        let ghost before = out@;
        out.push(piece);
        proof {
            assert(out@.map_values(|v: Vec<char>| v@) =~= before.map_values(|v: Vec<char>| v@).push(
                cs@.subrange(start as int, e as int),
            ));
        }
        if e == n {
            proof {
                assert(out@.map_values(|v: Vec<char>| v@) =~= before.map_values(|v: Vec<char>| v@)
                    + split_on(cs@.skip(start as int), sep));
                assert(split_on(cs@.skip(n as int), sep) == seq![Seq::<char>::empty()]) by {
                    assert(cs@.skip(n as int) =~= Seq::<char>::empty());
                }
                assert(out@.map_values(|v: Vec<char>| v@) + Seq::<Seq<char>>::empty() =~= out@.map_values(
                    |v: Vec<char>| v@,
                ));
            }
            return out;
        }
        proof {
            assert(before.map_values(|v: Vec<char>| v@) + split_on(cs@.skip(start as int), sep)
                =~= out@.map_values(|v: Vec<char>| v@) + split_on(cs@.skip(e + 1), sep));
        }
        start = e + 1;
    }
}

} // verus!
