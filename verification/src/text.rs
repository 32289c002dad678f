//! Character-sequence helpers shared by the parsers of this crate.
//!
//! Strings are handled as sequences of Unicode scalar values (`char`), which is
//! what `str` and `String` view to. Each executable helper is tied to a spec
//! function of the same meaning.

use vstd::prelude::*;

verus! {

/// `String::push` appends one character.
pub assume_specification[ String::push ](s: &mut String, ch: char)
    ensures
        final(s)@ == old(s)@.push(ch),
;

/// The characters of `s`, in order.
pub fn to_chars(s: &str) -> (r: Vec<char>)
    ensures
        r@ == s@,
{
    let mut out: Vec<char> = Vec::new();
    for c in it: s.chars()
        invariant
            out@ == it.seq().take(it.index() as int),
            it.seq() == s@,
    {
        out.push(c);
    }
    out
}

/// A `String` holding exactly the characters of `chars`.
pub fn from_chars(chars: &[char]) -> (r: String)
    ensures
        r@ == chars@,
{
    let mut out = String::new();
    let mut i: usize = 0;
    while i < chars.len()
        invariant
            i <= chars@.len(),
            out@ == chars@.take(i as int),
        decreases chars@.len() - i,
    {
        out.push(chars[i]);
        i += 1;
        proof {
            assert(chars@.take(i as int) =~= chars@.take(i - 1).push(chars@[i - 1]));
        }
    }
    proof {
        assert(chars@.take(i as int) =~= chars@);
    }
    out
}

/// Appends the characters of `s` to `out`.
pub fn push_str(out: &mut String, s: &str)
    ensures
        final(out)@ == old(out)@ + s@,
{
    let cs = to_chars(s);
    let mut i: usize = 0;
    while i < cs.len()
        invariant
            i <= cs@.len(),
            cs@ == s@,
            out@ == old(out)@ + cs@.take(i as int),
        decreases cs@.len() - i,
    {
        out.push(cs[i]);
        i += 1;
        proof {
            assert(cs@.take(i as int) =~= cs@.take(i - 1).push(cs@[i - 1]));
            assert(old(out)@ + cs@.take(i as int) =~= old(out)@ + cs@.take(i - 1) + seq![
                cs@[i - 1],
            ]);
        }
    }
    proof {
        assert(cs@.take(i as int) =~= cs@);
    }
}

/// Whether `pat` occurs in `s` starting at index `i`.
pub open spec fn matches_at(s: Seq<char>, pat: Seq<char>, i: int) -> bool {
    0 <= i && i + pat.len() <= s.len() && s.subrange(i, i + pat.len()) == pat
}

/// `i` is the first index at which `pat` occurs in `s`.
pub open spec fn is_first_match(s: Seq<char>, pat: Seq<char>, i: int) -> bool {
    matches_at(s, pat, i) && forall|j: int| 0 <= j < i ==> !matches_at(s, pat, j)
}

/// The first index at which `pat` occurs in `s`, as `str::find` reports it.
pub open spec fn find_sub(s: Seq<char>, pat: Seq<char>) -> Option<int> {
    if exists|i: int| is_first_match(s, pat, i) {
        Some(choose|i: int| is_first_match(s, pat, i))
    } else {
        None
    }
}

/// Whether `pat` occurs anywhere in `s`.
pub open spec fn contains_sub(s: Seq<char>, pat: Seq<char>) -> bool {
    exists|i: int| matches_at(s, pat, i)
}

/// The first match is unique, so `find_sub` names it.
pub proof fn lemma_find_sub_is(s: Seq<char>, pat: Seq<char>, i: int)
    requires
        is_first_match(s, pat, i),
    ensures
        find_sub(s, pat) == Some(i),
{
    let k = choose|k: int| is_first_match(s, pat, k);
    assert(is_first_match(s, pat, k));
    if k < i {
        assert(!matches_at(s, pat, k));
    }
    if i < k {
        assert(!matches_at(s, pat, i));
    }
}

/// Without any match, `find_sub` is `None`, and the other way round.
pub proof fn lemma_find_sub_none(s: Seq<char>, pat: Seq<char>)
    ensures
        find_sub(s, pat) is None <==> !contains_sub(s, pat),
        find_sub(s, pat) matches Some(i) ==> is_first_match(s, pat, i),
{
    if contains_sub(s, pat) {
        let w = choose|w: int| matches_at(s, pat, w);
        lemma_first_match_exists(s, pat, w);
    }
}

/// A match at `w` implies a first match at or before `w`.
pub proof fn lemma_first_match_exists(s: Seq<char>, pat: Seq<char>, w: int)
    requires
        matches_at(s, pat, w),
    ensures
        exists|i: int| is_first_match(s, pat, i) && i <= w,
    decreases w,
{
    if forall|j: int| 0 <= j < w ==> !matches_at(s, pat, j) {
        assert(is_first_match(s, pat, w));
    } else {
        let j = choose|j: int| 0 <= j < w && matches_at(s, pat, j);
        lemma_first_match_exists(s, pat, j);
    }
}

/// Whether `pat` occurs at index `i` of `s` (bounds are checked).
pub fn matches_at_exec(s: &[char], pat: &[char], i: usize) -> (r: bool)
    ensures
        r == matches_at(s@, pat@, i as int),
{
    let n = s.len();
    if i > n || pat.len() > n - i {
        return false;
    }
    let mut k: usize = 0;
    while k < pat.len()
        invariant
            n == s@.len(),
            i + pat@.len() <= n,
            k <= pat@.len(),
            forall|m: int| 0 <= m < k ==> s@[i + m] == pat@[m],
        decreases pat@.len() - k,
    {
        if s[i + k] != pat[k] {
            proof {
                assert(s@.subrange(i as int, i + pat@.len())[k as int] != pat@[k as int]);
            }
            return false;
        }
        k += 1;
    }
    proof {
        assert(s@.subrange(i as int, i + pat@.len()) =~= pat@);
    }
    true
}

/// The first index at which `pat` occurs in `s`, as `str::find` gives it.
pub fn find_sub_exec(s: &[char], pat: &[char]) -> (r: Option<usize>)
    ensures
        match r {
            Some(i) => find_sub(s@, pat@) == Some(i as int),
            None => find_sub(s@, pat@) is None,
        },
{
    let mut i: usize = 0;
    loop
        invariant
            i <= s@.len(),
            forall|j: int| 0 <= j < i ==> !matches_at(s@, pat@, j),
        ensures
            forall|j: int| 0 <= j <= s@.len() ==> !matches_at(s@, pat@, j),
        decreases s@.len() - i,
    {
        if matches_at_exec(s, pat, i) {
            proof {
                lemma_find_sub_is(s@, pat@, i as int);
            }
            return Some(i);
        }
        if i == s.len() {
            break;
        }
        i += 1;
    }
    proof {
        lemma_find_sub_none(s@, pat@);
        assert forall|j: int| !matches_at(s@, pat@, j) by {
            if 0 <= j <= s@.len() {
            }
        }
    }
    None
}

/// `s` begins with `pat`.
pub open spec fn has_prefix(s: Seq<char>, pat: Seq<char>) -> bool {
    pat.len() <= s.len() && s.take(pat.len() as int) == pat
}

/// `s` ends with `pat`.
pub open spec fn has_suffix(s: Seq<char>, pat: Seq<char>) -> bool {
    pat.len() <= s.len() && s.skip(s.len() - pat.len()) == pat
}

/// Whether `s` begins with `pat`.
pub fn starts_with(s: &[char], pat: &[char]) -> (r: bool)
    ensures
        r == has_prefix(s@, pat@),
{
    let r = matches_at_exec(s, pat, 0);
    proof {
        assert(s@.subrange(0, pat@.len() as int) == s@.take(pat@.len() as int));
    }
    r
}

/// Whether `s` ends with `pat`.
pub fn ends_with(s: &[char], pat: &[char]) -> (r: bool)
    ensures
        r == has_suffix(s@, pat@),
{
    if pat.len() > s.len() {
        return false;
    }
    let r = matches_at_exec(s, pat, s.len() - pat.len());
    proof {
        assert(s@.subrange(s@.len() - pat@.len(), s@.len() as int) == s@.skip(
            s@.len() - pat@.len(),
        ));
    }
    r
}

/// The index of the first `c` in `s`.
pub open spec fn find_char(s: Seq<char>, c: char) -> Option<int> {
    find_sub(s, seq![c])
}

/// `str::split_once(c)`: the text before the first `c` and the text after it.
pub open spec fn split_once(s: Seq<char>, c: char) -> Option<(Seq<char>, Seq<char>)> {
    match find_char(s, c) {
        Some(i) => Some((s.take(i), s.skip(i + 1))),
        None => None,
    }
}

/// A single-character match is a plain equality.
pub proof fn lemma_matches_single(s: Seq<char>, c: char, i: int)
    ensures
        matches_at(s, seq![c], i) <==> (0 <= i < s.len() && s[i] == c),
{
    if 0 <= i < s.len() && s[i] == c {
        assert(s.subrange(i, i + 1) =~= seq![c]);
    }
    if matches_at(s, seq![c], i) {
        assert(s.subrange(i, i + 1)[0] == s[i]);
    }
}

/// The index of the first `c` in `s`.
pub fn find_char_exec(s: &[char], c: char) -> (r: Option<usize>)
    ensures
        match r {
            Some(i) => find_char(s@, c) == Some(i as int) && i < s@.len() && s@[i as int] == c,
            None => find_char(s@, c) is None,
        },
{
    let mut i: usize = 0;
    while i < s.len()
        invariant
            i <= s@.len(),
            forall|j: int| 0 <= j < i ==> s@[j] != c,
        decreases s@.len() - i,
    {
        if s[i] == c {
            proof {
                lemma_matches_single(s@, c, i as int);
                assert forall|j: int| 0 <= j < i implies !matches_at(s@, seq![c], j) by {
                    lemma_matches_single(s@, c, j);
                }
                lemma_find_sub_is(s@, seq![c], i as int);
            }
            return Some(i);
        }
        i += 1;
    }
    proof {
        lemma_find_sub_none(s@, seq![c]);
        assert forall|j: int| !matches_at(s@, seq![c], j) by {
            lemma_matches_single(s@, c, j);
        }
    }
    None
}

/// Unicode `White_Space`, the set that `char::is_whitespace` and `str::trim` use.
pub open spec fn is_ws(c: char) -> bool {
    let u = c as u32;
    (0x9 <= u <= 0xD) || u == 0x20 || u == 0x85 || u == 0xA0 || u == 0x1680 || (0x2000 <= u
        <= 0x200A) || u == 0x2028 || u == 0x2029 || u == 0x202F || u == 0x205F || u == 0x3000
}

/// Whether `c` is Unicode white space.
pub fn is_ws_exec(c: char) -> (r: bool)
    ensures
        r == is_ws(c),
{
    let u = c as u32;
    (0x9 <= u && u <= 0xD) || u == 0x20 || u == 0x85 || u == 0xA0 || u == 0x1680 || (0x2000 <= u
        && u <= 0x200A) || u == 0x2028 || u == 0x2029 || u == 0x202F || u == 0x205F || u == 0x3000
}

/// `str::trim_start`.
pub open spec fn trim_start(s: Seq<char>) -> Seq<char>
    decreases s.len(),
{
    if s.len() > 0 && is_ws(s[0]) {
        trim_start(s.drop_first())
    } else {
        s
    }
}

/// `str::trim_end`.
pub open spec fn trim_end(s: Seq<char>) -> Seq<char>
    decreases s.len(),
{
    if s.len() > 0 && is_ws(s.last()) {
        trim_end(s.drop_last())
    } else {
        s
    }
}

/// `str::trim`: white space removed at both ends.
pub open spec fn trim(s: Seq<char>) -> Seq<char> {
    trim_end(trim_start(s))
}

/// Bounds `[from, to)` such that `s[from..to]` is `trim(s)`.
pub fn trim_bounds(s: &[char]) -> (r: (usize, usize))
    ensures
        r.0 <= r.1 <= s@.len(),
        s@.subrange(r.0 as int, r.1 as int) == trim(s@),
{
    let mut a: usize = 0;
    proof {
        assert(s@.skip(0) =~= s@);
    }
    while a < s.len() && is_ws_exec(s[a])
        invariant
            a <= s@.len(),
            trim_start(s@) == trim_start(s@.skip(a as int)),
        decreases s@.len() - a,
    {
        proof {
            assert(s@.skip(a as int).drop_first() =~= s@.skip(a + 1));
        }
        a += 1;
    }
    proof {
        assert(trim_start(s@.skip(a as int)) == s@.skip(a as int));
    }
    let mut b: usize = s.len();
    while b > a && is_ws_exec(s[b - 1])
        invariant
            a <= b <= s@.len(),
            trim_start(s@) == s@.skip(a as int),
            trim(s@) == trim_end(s@.subrange(a as int, b as int)),
        decreases b,
    {
        proof {
            assert(s@.subrange(a as int, b as int).drop_last() =~= s@.subrange(a as int, b - 1));
        }
        b -= 1;
    }
    proof {
        if b == s@.len() {
            assert(s@.subrange(a as int, b as int) =~= s@.skip(a as int));
        }
        assert(trim_end(s@.subrange(a as int, b as int)) == s@.subrange(a as int, b as int));
    }
    (a, b)
}

/// `str::trim` on a character slice.
pub fn trim_chars(s: &[char]) -> (r: Vec<char>)
    ensures
        r@ == trim(s@),
{
    let (a, b) = trim_bounds(s);
    slice_range(s, a, b)
}

/// A copy of `s[from..to]`.
pub fn slice_range(s: &[char], from: usize, to: usize) -> (r: Vec<char>)
    requires
        from <= to <= s@.len(),
    ensures
        r@ == s@.subrange(from as int, to as int),
{
    let mut out: Vec<char> = Vec::new();
    let mut i: usize = from;
    while i < to
        invariant
            from <= i <= to <= s@.len(),
            out@ == s@.subrange(from as int, i as int),
        decreases to - i,
    {
        out.push(s[i]);
        i += 1;
        proof {
            assert(s@.subrange(from as int, i as int) =~= s@.subrange(from as int, i - 1).push(
                s@[i - 1],
            ));
        }
    }
    out
}

/// Whether two character slices are equal.
pub fn chars_eq(a: &[char], b: &[char]) -> (r: bool)
    ensures
        r == (a@ == b@),
{
    if a.len() != b.len() {
        return false;
    }
    let mut i: usize = 0;
    while i < a.len()
        invariant
            a@.len() == b@.len(),
            i <= a@.len(),
            forall|j: int| 0 <= j < i ==> a@[j] == b@[j],
        decreases a@.len() - i,
    {
        if a[i] != b[i] {
            return false;
        }
        i += 1;
    }
    proof {
        assert(a@ =~= b@);
    }
    true
}

/// `str::replace` for a non-empty pattern: every non-overlapping occurrence
/// of `pat`, from the left, replaced by `rep`.
pub open spec fn replace_all(s: Seq<char>, pat: Seq<char>, rep: Seq<char>) -> Seq<char>
    decreases s.len(),
{
    if pat.len() == 0 {
        s
    } else {
        match find_sub(s, pat) {
            Some(i) => if 0 <= i && i + pat.len() <= s.len() {
                s.take(i) + rep + replace_all(s.skip(i + pat.len()), pat, rep)
            } else {
                s
            },
            None => s,
        }
    }
}

/// Replaces every occurrence of `pat` in `s` by `rep`, as [`replace_all`] says.
pub fn replace_all_exec(s: &str, pat: &str, rep: &str) -> (r: String)
    requires
        pat@.len() > 0,
    ensures
        r@ == replace_all(s@, pat@, rep@),
{
    let cs = to_chars(s);
    let p = to_chars(pat);
    let n = cs.len();
    let mut out = String::new();
    let mut pos: usize = 0;
    proof {
        assert(cs@.skip(0) =~= cs@);
    }
    loop
        invariant
            pos <= n,
            n == cs@.len(),
            cs@ == s@,
            p@ == pat@,
            p@.len() > 0,
            out@ + replace_all(cs@.skip(pos as int), pat@, rep@) == replace_all(s@, pat@, rep@),
        decreases n - pos,
    {
        let rest = slice_range(&cs, pos, n);
        proof {
            assert(rest@ =~= cs@.skip(pos as int));
        }
        match find_sub_exec(&rest, &p) {
            Some(i) => {
                proof {
                    lemma_find_sub_none(rest@, p@);
                    assert(i + p@.len() <= rest@.len());
                }
                let before = slice_range(&rest, 0, i);
                let ghost old_out = out@;
                let k: usize = i + p.len();
                let mut j: usize = 0;
                while j < before.len()
                    invariant
                        j <= before@.len(),
                        out@ == old_out + before@.take(j as int),
                    decreases before@.len() - j,
                {
                    out.push(before[j]);
                    proof {
                        assert(before@.take(j + 1) =~= before@.take(j as int).push(before@[j as int]));
                    }
                    j += 1;
                }
                push_str(&mut out, rep);
                proof {
                    assert(before@.take(j as int) =~= before@);
                    assert(before@ =~= rest@.take(i as int));
                    assert(rest@.skip(k as int) =~= cs@.skip(pos + k));
                    assert(replace_all(rest@, pat@, rep@) == rest@.take(i as int) + rep@ + replace_all(
                        rest@.skip(k as int),
                        pat@,
                        rep@,
                    ));
                    assert(out@ + replace_all(cs@.skip(pos + k), pat@, rep@) =~= old_out
                        + replace_all(rest@, pat@, rep@));
                }
                pos = pos + k;
            },
            None => {
                push_str(&mut out, rest_str(&rest).as_str());
                return out;
            },
        }
    }
}

/// The characters of `cs` as a `String`.
fn rest_str(cs: &Vec<char>) -> (r: String)
    ensures
        r@ == cs@,
{
    from_chars(cs)
}

} // verus!
