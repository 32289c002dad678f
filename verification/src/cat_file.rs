//! `git cat-file --batch` output: for each requested object a header line
//! `<object> <type> <size>`, then `size` bytes of content and a newline, or
//! the single line `<object> missing`.

use vstd::prelude::*;

use crate::diff_state::DiffStateModel;

verus! {

/// The newline byte.
pub const NEWLINE: u8 = 10;

/// The space byte.
pub const SPACE: u8 = 32;

/// Index of the first `b` in `s` at or after `from`.
pub open spec fn index_from(s: Seq<u8>, b: u8, from: int) -> Option<int>
    decreases s.len() - from,
{
    if from < 0 || from >= s.len() {
        None
    } else if s[from] == b {
        Some(from)
    } else {
        index_from(s, b, from + 1)
    }
}

/// Index of the last `b` in `s[start..end]`.
pub open spec fn last_index_in(s: Seq<u8>, b: u8, start: int, end: int) -> Option<int>
    decreases end - start,
{
    if end <= start {
        None
    } else if s[end - 1] == b {
        Some(end - 1)
    } else {
        last_index_in(s, b, start, end - 1)
    }
}

/// `s[a..b]` is made of ASCII decimal digits.
pub open spec fn ascii_digits(s: Seq<u8>, a: int, b: int) -> bool {
    forall|k: int| a <= k < b ==> 48 <= #[trigger] s[k] <= 57
}

/// The decimal number written by the digits `s[a..b]`.
pub open spec fn ascii_decimal(s: Seq<u8>, a: int, b: int) -> nat
    decreases b - a,
{
    if b <= a {
        0
    } else {
        ascii_decimal(s, a, b - 1) * 10 + (s[b - 1] - 48) as nat
    }
}

/// `s[a..b]` is the word `blob`.
pub open spec fn is_blob_word(s: Seq<u8>, a: int, b: int) -> bool {
    b - a == 4 && s[a] == 98 && s[a + 1] == 108 && s[a + 2] == 111 && s[a + 3] == 98
}

/// `s[a..b]` is the word `missing`.
pub open spec fn is_missing_word(s: Seq<u8>, a: int, b: int) -> bool {
    &&& b - a == 7
    &&& s[a] == 109 && s[a + 1] == 105 && s[a + 2] == 115 && s[a + 3] == 115
    &&& s[a + 4] == 105 && s[a + 5] == 110 && s[a + 6] == 103
}

/// The header line `s[start..nl]`: `None` when it is malformed, `Some(None)`
/// for `<object> missing`, and `Some(Some((is_blob, size)))` for
/// `<object> <type> <size>`. The fields are split at the last two spaces.
pub open spec fn cat_file_header(s: Seq<u8>, start: int, nl: int) -> Option<Option<(bool, nat)>> {
    match last_index_in(s, SPACE, start, nl) {
        None => None,
        Some(sp2) => if is_missing_word(s, sp2 + 1, nl) {
            Some(None)
        } else if !(sp2 + 1 < nl && ascii_digits(s, sp2 + 1, nl)) {
            None
        } else {
            match last_index_in(s, SPACE, start, sp2) {
                None => None,
                Some(sp1) => Some(Some((is_blob_word(s, sp1 + 1, sp2), ascii_decimal(s, sp2 + 1, nl)))),
            }
        },
    }
}

/// The entry that starts at `pos`: its content (for a blob) and where the
/// next entry starts; `None` when the stream is cut short or malformed there.
pub open spec fn next_cat_file_entry(s: Seq<u8>, pos: int) -> Option<(Option<Seq<u8>>, int)> {
    match index_from(s, NEWLINE, pos) {
        None => None,
        Some(nl) => match cat_file_header(s, pos, nl) {
            None => None,
            Some(None) => Some((None, nl + 1)),
            Some(Some((blob, size))) => {
                let start = nl + 1;
                let end = start + size;
                if end > s.len() {
                    None
                } else {
                    let next = if end < s.len() && s[end] == NEWLINE {
                        end + 1
                    } else {
                        end
                    };
                    Some((if blob { Some(s.subrange(start, end)) } else { None }, next))
                }
            },
        },
    }
}

/// The contents of the next `count` entries from `pos`: a blob's bytes, or
/// `None` for a missing object or another type; from the first entry that is
/// cut short or malformed on, every entry is `None`.
pub open spec fn cat_file_entries(s: Seq<u8>, pos: int, count: nat) -> Seq<Option<Seq<u8>>>
    decreases count,
{
    if count == 0 {
        Seq::empty()
    } else {
        match next_cat_file_entry(s, pos) {
            None => Seq::new(count, |k: int| None),
            Some((v, next)) => seq![v] + cat_file_entries(s, next, (count - 1) as nat),
        }
    }
}

/// What `String::from_utf8_lossy` makes of the given bytes.
pub uninterp spec fn lossy_utf8(bytes: Seq<u8>) -> Seq<char>;

/// The entries' contents decoded as text.
pub open spec fn decoded_entries(es: Seq<Option<Seq<u8>>>) -> Seq<Option<Seq<char>>> {
    es.map_values(
        |e: Option<Seq<u8>>|
            match e {
                Some(b) => Some(lossy_utf8(b)),
                None => None,
            },
    )
}

/// The views of optional strings.
pub open spec fn string_options(v: Seq<Option<String>>) -> Seq<Option<Seq<char>>> {
    v.map_values(
        |o: Option<String>|
            match o {
                Some(t) => Some(t@),
                None => None,
            },
    )
}

/// Calls `String::from_utf8_lossy`, which decodes UTF-8 and puts U+FFFD in
/// place of each invalid sequence. Claimed: the result is a function of the
/// bytes alone, and bytes that are all ASCII come back as the same characters.
#[verifier::external_body]
pub(crate) fn utf8_lossy(bytes: &[u8]) -> (r: String)
    ensures
        r@ == lossy_utf8(bytes@),
        (forall|k: int| 0 <= k < bytes@.len() ==> bytes@[k] < 128) ==> r@ == bytes@.map_values(
            |b: u8| b as char,
        ),
{
    String::from_utf8_lossy(bytes).into_owned()
}

fn index_from_exec(s: &[u8], b: u8, from: usize) -> (r: Option<usize>)
    ensures
        index_from(s@, b, from as int) == match r {
            Some(k) => Some(k as int),
            None => None::<int>,
        },
{
    let mut j = from;
    while j < s.len()
        invariant
            from <= j,
            index_from(s@, b, from as int) == index_from(s@, b, j as int),
        decreases s.len() - j,
    {
        if s[j] == b {
            return Some(j);
        }
        j += 1;
    }
    None
}

fn last_index_in_exec(s: &[u8], b: u8, start: usize, end: usize) -> (r: Option<usize>)
    requires
        end <= s@.len(),
    ensures
        last_index_in(s@, b, start as int, end as int) == match r {
            Some(k) => Some(k as int),
            None => None::<int>,
        },
{
    let mut j = end;
    while j > start
        invariant
            j <= end <= s@.len(),
            last_index_in(s@, b, start as int, end as int) == last_index_in(s@, b, start as int, j as int),
        decreases j,
    {
        if s[j - 1] == b {
            return Some(j - 1);
        }
        j -= 1;
    }
    None
}

proof fn lemma_index_from_range(s: Seq<u8>, b: u8, from: int)
    ensures
        index_from(s, b, from) matches Some(k) ==> from <= k < s.len() && s[k] == b,
    decreases s.len() - from,
{
    if 0 <= from < s.len() && s[from] != b {
        lemma_index_from_range(s, b, from + 1);
    }
}

proof fn lemma_last_index_range(s: Seq<u8>, b: u8, start: int, end: int)
    ensures
        last_index_in(s, b, start, end) matches Some(k) ==> start <= k < end && s[k] == b,
    decreases end - start,
{
    if end > start && s[end - 1] != b {
        lemma_last_index_range(s, b, start, end - 1);
    }
}

proof fn lemma_cat_file_entries_len(s: Seq<u8>, pos: int, count: nat)
    ensures
        cat_file_entries(s, pos, count).len() == count,
    decreases count,
{
    if count > 0 {
        if let Some((v, next)) = next_cat_file_entry(s, pos) {
            lemma_cat_file_entries_len(s, next, (count - 1) as nat);
        }
    }
}

proof fn lemma_ascii_decimal_grows(s: Seq<u8>, a: int, j: int, k: int)
    requires
        a <= j <= k,
        ascii_digits(s, a, k),
    ensures
        ascii_decimal(s, a, j) <= ascii_decimal(s, a, k),
    decreases k - j,
{
    if j < k {
        lemma_ascii_decimal_grows(s, a, j, k - 1);
    }
}

/// The digits `s[a..b]` as a `usize`, or `None` when the number is larger
/// than `usize::MAX`.
fn ascii_decimal_exec(s: &[u8], a: usize, b: usize) -> (r: Option<usize>)
    requires
        a <= b <= s@.len(),
        ascii_digits(s@, a as int, b as int),
    ensures
        match r {
            Some(v) => v == ascii_decimal(s@, a as int, b as int),
            None => ascii_decimal(s@, a as int, b as int) > usize::MAX,
        },
{
    let mut acc: usize = 0;
    let mut j = a;
    while j < b
        invariant
            a <= j <= b <= s@.len(),
            ascii_digits(s@, a as int, b as int),
            acc == ascii_decimal(s@, a as int, j as int),
        decreases b - j,
    {
        let d = s[j] - 48;
        match acc.checked_mul(10) {
            Some(t) => match t.checked_add(d as usize) {
                Some(v) => {
                    acc = v;
                },
                None => {
                    proof {
                        lemma_ascii_decimal_grows(s@, a as int, j + 1, b as int);
                    }
                    return None;
                },
            },
            None => {
                proof {
                    lemma_ascii_decimal_grows(s@, a as int, j + 1, b as int);
                }
                return None;
            },
        }
        j += 1;
    }
    Some(acc)
}

fn all_ascii_digits(s: &[u8], a: usize, b: usize) -> (r: bool)
    requires
        a <= b <= s@.len(),
    ensures
        r == ascii_digits(s@, a as int, b as int),
{
    let mut j = a;
    while j < b
        invariant
            a <= j <= b <= s@.len(),
            ascii_digits(s@, a as int, j as int),
        decreases b - j,
    {
        if s[j] < 48 || s[j] > 57 {
            return false;
        }
        j += 1;
    }
    true
}

fn is_blob_exec(s: &[u8], a: usize, b: usize) -> (r: bool)
    requires
        a <= b <= s@.len(),
    ensures
        r == is_blob_word(s@, a as int, b as int),
{
    b - a == 4 && s[a] == 98 && s[a + 1] == 108 && s[a + 2] == 111 && s[a + 3] == 98
}

fn is_missing_exec(s: &[u8], a: usize, b: usize) -> (r: bool)
    requires
        a <= b <= s@.len(),
    ensures
        r == is_missing_word(s@, a as int, b as int),
{
    b - a == 7 && s[a] == 109 && s[a + 1] == 105 && s[a + 2] == 115 && s[a + 3] == 115 && s[a
        + 4] == 105 && s[a + 5] == 110 && s[a + 6] == 103
}

/// Reads the entry at `pos`, as [`next_cat_file_entry`] says.
fn next_entry_exec(s: &[u8], pos: usize) -> (r: Option<(Option<String>, usize)>)
    requires
        pos <= s@.len(),
    ensures
        match next_cat_file_entry(s@, pos as int) {
            None => r is None,
            Some((v, next)) => r matches Some((t, n)) && n == next && n <= s@.len() && n > pos
                && match v {
                Some(b) => t matches Some(text) && text@ == lossy_utf8(b),
                None => t is None,
            },
        },
{
    let len = s.len();
    proof {
        lemma_index_from_range(s@, NEWLINE, pos as int);
    }
    let nl = match index_from_exec(s, NEWLINE, pos) {
        Some(nl) => nl,
        None => return None,
    };
    proof {
        lemma_last_index_range(s@, SPACE, pos as int, nl as int);
    }
    let sp2 = match last_index_in_exec(s, SPACE, pos, nl) {
        Some(k) => k,
        None => return None,
    };
    if is_missing_exec(s, sp2 + 1, nl) {
        return Some((None, nl + 1));
    }
    if !(sp2 + 1 < nl && all_ascii_digits(s, sp2 + 1, nl)) {
        return None;
    }
    proof {
        lemma_last_index_range(s@, SPACE, pos as int, sp2 as int);
    }
    let sp1 = match last_index_in_exec(s, SPACE, pos, sp2) {
        Some(k) => k,
        None => return None,
    };
    let blob = is_blob_exec(s, sp1 + 1, sp2);
    let size = match ascii_decimal_exec(s, sp2 + 1, nl) {
        Some(v) => v,
        None => return None,
    };
    let start = nl + 1;
    if size > s.len() - start {
        return None;
    }
    let end = start + size;
    let next = if end < s.len() && s[end] == NEWLINE {
        end + 1
    } else {
        end
    };
    if blob {
        let content = vstd::slice::slice_subrange(s, start, end);
        Some((Some(utf8_lossy(content)), next))
    } else {
        Some((None, next))
    }
}

impl DiffStateModel {
    /// Splits the output of `git cat-file --batch` for `count` requested
    /// objects into their contents, as [`cat_file_entries`] says: a blob's
    /// text, `None` for a missing object or another type, and `None` for
    /// every entry from the first one that is cut short or malformed.
    pub fn parse_cat_file_batch_output(output: &[u8], count: usize) -> (r: Vec<Option<String>>)
        ensures
            string_options(r@) == decoded_entries(cat_file_entries(output@, 0, count as nat)),
            r@.len() == count,
    {
        let ghost all = cat_file_entries(output@, 0, count as nat);
        let mut out: Vec<Option<String>> = Vec::new();
        let mut pos: usize = 0;
        let mut done = false;
        let mut i: usize = 0;
        proof {
            lemma_cat_file_entries_len(output@, 0, count as nat);
            assert(all.skip(0) =~= all);
        }
        while i < count
            invariant
                i <= count,
                pos <= output@.len(),
                all == cat_file_entries(output@, 0, count as nat),
                all.len() == count,
                string_options(out@) == decoded_entries(all.take(i as int)),
                done ==> all.skip(i as int) =~= Seq::new((count - i) as nat, |k: int| None::<Seq<u8>>),
                !done ==> all.skip(i as int) == cat_file_entries(output@, pos as int, (count - i) as nat),
            decreases count - i,
        {
            let ghost before = out@;
            let ghost rest = all.skip(i as int);
            let mut item: Option<String> = None;
            if !done {
                match next_entry_exec(output, pos) {
                    Some((t, n)) => {
                        item = t;
                        pos = n;
                        proof {
                            assert(rest[0] == all[i as int]);
                            assert(all.skip(i + 1) =~= rest.skip(1));
                        }
                    },
                    None => {
                        done = true;
                        proof {
                            assert(all.skip(i + 1) =~= rest.skip(1));
                        }
                    },
                }
            } else {
                proof {
                    assert(rest[0] == all[i as int]);
                    assert(all.skip(i + 1) =~= rest.skip(1));
                }
            }
            let ghost it = item;
            out.push(item);
            proof {
                assert(all.take(i + 1) =~= all.take(i as int).push(all[i as int]));
                assert(rest[0] == all[i as int]);
                assert(string_options(out@) =~= string_options(before).push(
                    match it {
                        Some(t) => Some(t@),
                        None => None,
                    },
                ));
                assert(decoded_entries(all.take(i + 1)) =~= decoded_entries(all.take(i as int)).push(
                    match all[i as int] {
                        Some(b) => Some(lossy_utf8(b)),
                        None => None,
                    },
                ));
            }
            i += 1;
        }
        proof {
            assert(all.take(count as int) =~= all);
        }
        out
    }
}

/// How many leading bytes are looked at for a NUL, as git's
/// `buffer_is_binary` does.
pub const BINARY_WINDOW: usize = 8000;

/// A file is binary when a NUL byte occurs among its first
/// [`BINARY_WINDOW`] bytes.
pub open spec fn is_binary_spec(content: Seq<u8>) -> bool {
    exists|k: int| 0 <= k < content.len() && k < BINARY_WINDOW && content[k] == 0
}

impl DiffStateModel {
    /// Whether the content (as much of the file as was read) is binary by
    /// git's rule, [`is_binary_spec`]; NULs past the window are left to git.
    pub fn is_binary_content(content: &[u8]) -> (r: bool)
        ensures
            r == is_binary_spec(content@),
    {
        let n = if content.len() < BINARY_WINDOW {
            content.len()
        } else {
            BINARY_WINDOW
        };
        let mut k: usize = 0;
        while k < n
            invariant
                k <= n,
                n <= content@.len(),
                n <= BINARY_WINDOW,
                n == content@.len() || n == BINARY_WINDOW,
                forall|j: int| 0 <= j < k ==> content@[j] != 0,
            decreases n - k,
        {
            if content[k] == 0 {
                return true;
            }
            k += 1;
        }
        false
    }
}

} // verus!
