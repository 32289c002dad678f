//! The `dsh.pid` record: which Zap process started which dsh process group,
//! written at every start and read at the next one to reclaim a group that a
//! Zap that died without cleaning up left behind.
//!
//! The record is `zap_pid=<pid>\npgid=<pgid>\nstarted_at=<unix seconds>\n`.

use vstd::prelude::*;

use crate::lines::{
    line_end, lemma_run_len_is, lemma_split_lines_step, line_len, not_newline, split_lines,
};
use crate::text::{
    find_char, find_char_exec, is_ws, lemma_find_sub_is, lemma_matches_single, matches_at,
    push_str, slice_range, split_once, to_chars, trim, trim_chars, trim_end, trim_start,
};

verus! {

/// An ASCII decimal digit.
pub open spec fn is_digit(c: char) -> bool {
    '0' <= c <= '9'
}

/// The value of a decimal digit.
pub open spec fn digit_value(c: char) -> int {
    (c as int) - ('0' as int)
}

/// The value of a string of decimal digits (most significant first).
pub open spec fn digits_value(s: Seq<char>) -> int
    decreases s.len(),
{
    if s.len() == 0 {
        0
    } else {
        10 * digits_value(s.drop_last()) + digit_value(s.last())
    }
}

/// Every character is a decimal digit.
pub open spec fn all_digits(s: Seq<char>) -> bool {
    forall|i: int| 0 <= i < s.len() ==> is_digit(#[trigger] s[i])
}

/// `i32::from_str`: an optional `+` or `-`, then one or more decimal digits,
/// with a value that fits.
pub open spec fn parse_i32(s: Seq<char>) -> Option<i32> {
    let neg = s.len() > 0 && s[0] == '-';
    let signed = s.len() > 0 && (s[0] == '-' || s[0] == '+');
    let ds = if signed {
        s.drop_first()
    } else {
        s
    };
    let v = if neg {
        -digits_value(ds)
    } else {
        digits_value(ds)
    };
    if ds.len() > 0 && all_digits(ds) && i32::MIN <= v <= i32::MAX {
        Some(v as i32)
    } else {
        None
    }
}

/// Adding a digit never lowers the value.
proof fn lemma_digits_value_grows(s: Seq<char>, k: int)
    requires
        0 <= k < s.len(),
        all_digits(s),
    ensures
        digits_value(s.take(k + 1)) == 10 * digits_value(s.take(k)) + digit_value(s[k]),
        digits_value(s.take(k)) >= 0,
        digits_value(s.take(k + 1)) >= digits_value(s.take(k)),
    decreases k,
{
    assert(s.take(k + 1).drop_last() =~= s.take(k));
    if k > 0 {
        lemma_digits_value_grows(s, k - 1);
    } else {
        assert(s.take(0) =~= Seq::<char>::empty());
    }
}

/// Parses a decimal `i32` as `str::parse::<i32>` does.
pub fn parse_i32_exec(s: &[char]) -> (r: Option<i32>)
    ensures
        r == parse_i32(s@),
{
    let n = s.len();
    let neg = n > 0 && s[0] == '-';
    let signed = n > 0 && (s[0] == '-' || s[0] == '+');
    let first: usize = if signed {
        1
    } else {
        0
    };
    let ghost ds = if signed {
        s@.drop_first()
    } else {
        s@
    };
    proof {
        assert(ds =~= s@.skip(first as int));
    }
    if first == n {
        return None;
    }
    let mut acc: i64 = 0;
    let mut big = false;
    let mut k: usize = first;
    proof {
        assert(ds.take(0) =~= Seq::<char>::empty());
    }
    while k < n
        invariant
            first <= k <= n,
            n == s@.len(),
            ds =~= s@.skip(first as int),
            ds == (if signed {
                s@.drop_first()
            } else {
                s@
            }),
            signed == (s@.len() > 0 && (s@[0] == '-' || s@[0] == '+')),
            neg == (s@.len() > 0 && s@[0] == '-'),
            forall|j: int| 0 <= j < k - first ==> is_digit(#[trigger] ds[j]),
            !big ==> acc == digits_value(ds.take(k - first)) && 0 <= acc <= 2147483648,
            big ==> digits_value(ds.take(k - first)) > 2147483648,
        decreases n - k,
    {
        let c = s[k];
        if !('0' <= c && c <= '9') {
            proof {
                assert(ds[k - first] == c);
                assert(!is_digit(ds[k - first]));
                assert(!all_digits(ds));
            }
            return None;
        }
        let d = (c as u32 - '0' as u32) as i64;
        proof {
            let dk = ds.take(k + 1 - first);
            assert(dk.drop_last() =~= ds.take(k - first));
            assert(dk.last() == c);
            assert(d == digit_value(c));
        }
        if !big {
            acc = acc * 10 + d;
            if acc > 2147483648 {
                big = true;
            }
        } else {
            proof {
                let dk = ds.take(k + 1 - first);
                assert(digits_value(dk) == 10 * digits_value(ds.take(k - first)) + d);
            }
        }
        k += 1;
    }
    proof {
        assert(ds.take(n - first) =~= ds);
        assert(all_digits(ds));
    }
    if big {
        return None;
    }
    if neg {
        Some((0 - acc) as i32)
    } else if acc <= 2147483647 {
        Some(acc as i32)
    } else {
        None
    }
}

/// The `=`-separated value under `key` in the first line (trimmed) that has
/// a `=` and that name; later lines are not looked at.
pub open spec fn record_field(lines: Seq<Seq<char>>, key: Seq<char>) -> Option<Seq<char>>
    decreases lines.len(),
{
    if lines.len() == 0 {
        None
    } else {
        match split_once(trim(lines[0]), '=') {
            Some((name, value)) => if name == key {
                Some(value)
            } else {
                record_field(lines.drop_first(), key)
            },
            None => record_field(lines.drop_first(), key),
        }
    }
}

/// The integer under `key` in a record text: its value, trimmed and parsed.
pub open spec fn pid_record_field_spec(text: Seq<char>, key: Seq<char>) -> Option<i32> {
    match record_field(split_lines(text), key) {
        Some(v) => parse_i32(trim(v)),
        None => None,
    }
}

/// Reads the integer field `key` of a record text, as
/// [`pid_record_field_spec`] says.
pub fn pid_record_field(text: &str, key: &str) -> (r: Option<i32>)
    ensures
        r == pid_record_field_spec(text@, key@),
{
    let cs = to_chars(text);
    let k = to_chars(key);
    let mut start: usize = 0;
    proof {
        assert(cs@.skip(0) =~= cs@);
    }
    loop
        invariant
            start <= cs@.len(),
            cs@ == text@,
            k@ == key@,
            record_field(split_lines(cs@), key@) == record_field(
                split_lines(cs@.skip(start as int)),
                key@,
            ),
        decreases cs@.len() - start,
    {
        let end = line_end(&cs, start);
        let raw = slice_range(&cs, start, end);
        let line = trim_chars(&raw);
        proof {
            lemma_split_lines_step(cs@, start as int, end as int);
            let ls = split_lines(cs@.skip(start as int));
            assert(ls[0] == raw@);
            if end < cs@.len() {
                assert(ls.drop_first() =~= split_lines(cs@.skip(end + 1)));
            } else {
                assert(ls.drop_first() =~= Seq::<Seq<char>>::empty());
                assert(record_field(Seq::<Seq<char>>::empty(), key@) is None);
            }
        }
        match find_char_exec(&line, '=') {
            Some(i) => {
                let ln = line.len();
                assert(i < ln);
                let name = slice_range(&line, 0, i);
                let value = slice_range(&line, i + 1, ln);
                proof {
                    assert(name@ =~= line@.take(i as int));
                    assert(value@ =~= line@.skip(i + 1));
                }
                if crate::text::chars_eq(&name, &k) {
                    let v = trim_chars(&value);
                    return parse_i32_exec(&v);
                }
            },
            None => {},
        }
        if end == cs.len() {
            return None;
        }
        start = end + 1;
    }
}

/// The process group that a record asks to reclaim, with the Zap process
/// that wrote it: both fields parse, the group is positive and the record is
/// not the one of `own_pid`. The caller reclaims the group only when that Zap
/// process is gone, so that another running Zap keeps its dsh.
pub open spec fn orphan_candidate_spec(text: Seq<char>, own_pid: i32) -> Option<(i32, i32)> {
    match (pid_record_field_spec(text, "zap_pid"@), pid_record_field_spec(text, "pgid"@)) {
        (Some(zap_pid), Some(pgid)) => if pgid <= 0 || zap_pid == own_pid {
            None
        } else {
            Some((zap_pid, pgid))
        },
        _ => None,
    }
}

/// `(zap_pid, pgid)` of a record that may name an orphaned group, as
/// [`orphan_candidate_spec`] says.
pub fn orphan_group_from_record(text: &str, own_pid: i32) -> (r: Option<(i32, i32)>)
    ensures
        r == orphan_candidate_spec(text@, own_pid),
{
    let zap_pid = match pid_record_field(text, "zap_pid") {
        Some(p) => p,
        None => return None,
    };
    let pgid = match pid_record_field(text, "pgid") {
        Some(p) => p,
        None => return None,
    };
    if pgid <= 0 || zap_pid == own_pid {
        return None;
    }
    Some((zap_pid, pgid))
}

/// The decimal digit for `d < 10`.
pub open spec fn digit_char(d: nat) -> char {
    if d == 0 {
        '0'
    } else if d == 1 {
        '1'
    } else if d == 2 {
        '2'
    } else if d == 3 {
        '3'
    } else if d == 4 {
        '4'
    } else if d == 5 {
        '5'
    } else if d == 6 {
        '6'
    } else if d == 7 {
        '7'
    } else if d == 8 {
        '8'
    } else {
        '9'
    }
}

/// The decimal form of `n`, without leading zeros.
pub open spec fn decimal(n: nat) -> Seq<char>
    decreases n,
{
    if n < 10 {
        seq![digit_char(n)]
    } else {
        decimal(n / 10).push(digit_char(n % 10))
    }
}

fn digit_char_exec(d: u64) -> (r: char)
    requires
        d < 10,
    ensures
        r == digit_char(d as nat),
{
    if d == 0 {
        '0'
    } else if d == 1 {
        '1'
    } else if d == 2 {
        '2'
    } else if d == 3 {
        '3'
    } else if d == 4 {
        '4'
    } else if d == 5 {
        '5'
    } else if d == 6 {
        '6'
    } else if d == 7 {
        '7'
    } else if d == 8 {
        '8'
    } else {
        '9'
    }
}

/// Appends the decimal form of `n`.
pub fn push_decimal(out: &mut String, n: u64)
    ensures
        final(out)@ == old(out)@ + decimal(n as nat),
    decreases n,
{
    if n >= 10 {
        push_decimal(out, n / 10);
    }
    out.push(digit_char_exec(n % 10));
    proof {
        if n >= 10 {
            assert(old(out)@ + decimal(n as nat) =~= old(out)@ + decimal((n / 10) as nat) + seq![
                digit_char((n % 10) as nat),
            ]);
        } else {
            assert(n % 10 == n);
            assert(old(out)@ + decimal(n as nat) =~= old(out)@.push(digit_char(n as nat)));
        }
    }
}

/// A digit character stands for its digit.
proof fn lemma_digit_char(d: nat)
    requires
        d < 10,
    ensures
        is_digit(digit_char(d)),
        digit_value(digit_char(d)) == d,
        !is_ws(digit_char(d)),
        digit_char(d) != '\n',
        digit_char(d) != '=',
{
}

/// A decimal form is a non-empty string of digits with the value it stands for.
pub proof fn lemma_decimal(n: nat)
    ensures
        decimal(n).len() > 0,
        all_digits(decimal(n)),
        digits_value(decimal(n)) == n,
        !is_ws(decimal(n)[0]),
        !is_ws(decimal(n).last()),
        forall|i: int| 0 <= i < decimal(n).len() ==> (#[trigger] decimal(n)[i]) != '\n' && decimal(
            n,
        )[i] != '=',
    decreases n,
{
    lemma_digit_char(n % 10);
    if n < 10 {
        assert(n % 10 == n);
    }
    if n < 10 {
        let d = decimal(n);
        assert(d.drop_last() =~= Seq::<char>::empty());
        assert(digits_value(Seq::<char>::empty()) == 0);
        assert(d.last() == digit_char(n));
        assert(digits_value(d) == 10 * digits_value(d.drop_last()) + digit_value(d.last()));
    }
    if n >= 10 {
        lemma_decimal(n / 10);
        let d = decimal(n);
        assert(d.drop_last() =~= decimal(n / 10));
        assert(d.last() == digit_char(n % 10));
        assert(n == 10 * (n / 10) + n % 10) by (nonlinear_arith);
        assert(digits_value(d) == 10 * digits_value(d.drop_last()) + digit_value(d.last()));
        assert(digits_value(d) == 10 * (n / 10) + n % 10);
        assert(d[0] == decimal(n / 10)[0]);
        assert forall|i: int| 0 <= i < d.len() implies is_digit(#[trigger] d[i]) by {
            if i < d.len() - 1 {
                assert(d[i] == decimal(n / 10)[i]);
            }
        }
        assert forall|i: int| 0 <= i < d.len() implies (#[trigger] d[i]) != '\n' && d[i] != '=' by {
            if i < d.len() - 1 {
                assert(d[i] == decimal(n / 10)[i]);
            }
        }
    }
}

/// The record text for a start: `zap_pid`, `pgid` and `started_at` lines.
pub open spec fn pid_record_text_spec(zap_pid: u32, pgid: u32, started_at: u64) -> Seq<char> {
    "zap_pid="@ + decimal(zap_pid as nat) + "\npgid="@ + decimal(pgid as nat) + "\nstarted_at="@
        + decimal(started_at as nat) + "\n"@
}

/// The record text that the next start reads back.
pub fn pid_record_text(zap_pid: u32, pgid: u32, started_at: u64) -> (r: String)
    ensures
        r@ == pid_record_text_spec(zap_pid, pgid, started_at),
{
    let mut out = String::new();
    push_str(&mut out, "zap_pid=");
    push_decimal(&mut out, zap_pid as u64);
    push_str(&mut out, "\npgid=");
    push_decimal(&mut out, pgid as u64);
    push_str(&mut out, "\nstarted_at=");
    push_decimal(&mut out, started_at);
    push_str(&mut out, "\n");
    proof {
        assert(out@ =~= pid_record_text_spec(zap_pid, pgid, started_at));
    }
    out
}

/// A line without a line break, then a line break: the first line, then the
/// lines of the rest.
pub proof fn lemma_split_lines_cons(a: Seq<char>, rest: Seq<char>)
    requires
        forall|i: int| 0 <= i < a.len() ==> #[trigger] a[i] != '\n',
    ensures
        split_lines(a + seq!['\n'] + rest) == seq![a] + split_lines(rest),
{
    let s = a + seq!['\n'] + rest;
    let keep = |c: char| not_newline(c);
    assert forall|j: int| 0 <= j < a.len() implies #[trigger] keep(s[j]) by {
        assert(s[j] == a[j]);
    }
    assert(s[a.len() as int] == '\n');
    lemma_run_len_is(s, keep, a.len() as int);
    assert(s.take(a.len() as int) =~= a);
    assert(s.skip(a.len() + 1int) =~= rest);
}

/// `key=<decimal n>` is its own trim, and splits at its `=` into the key and
/// the digits.
pub proof fn lemma_key_value_line(key: Seq<char>, n: nat)
    requires
        key.len() > 0,
        !is_ws(key[0]),
        forall|i: int| 0 <= i < key.len() ==> #[trigger] key[i] != '=' && key[i] != '\n',
    ensures
        ({
            let line = key + seq!['='] + decimal(n);
            &&& trim(line) == line
            &&& split_once(line, '=') == Some((key, decimal(n)))
            &&& forall|i: int| 0 <= i < line.len() ==> #[trigger] line[i] != '\n'
        }),
{
    lemma_decimal(n);
    let d = decimal(n);
    let line = key + seq!['='] + d;
    assert(line[0] == key[0]);
    assert(line.last() == d.last());
    assert(trim_start(line) == line);
    assert(trim_end(line) == line);
    let k = key.len() as int;
    lemma_matches_single(line, '=', k);
    assert forall|j: int| 0 <= j < k implies !matches_at(line, seq!['='], j) by {
        lemma_matches_single(line, '=', j);
        assert(line[j] == key[j]);
    }
    lemma_find_sub_is(line, seq!['='], k);
    assert(find_char(line, '=') == Some(k));
    assert(line.take(k) =~= key);
    assert(line.skip(k + 1) =~= d);
    assert forall|i: int| 0 <= i < line.len() implies #[trigger] line[i] != '\n' by {
        if i < k {
            assert(line[i] == key[i]);
        } else if i > k {
            assert(line[i] == d[i - k - 1]);
        }
    }
}

/// The decimal form of a value that fits in `i32` parses back to it.
pub proof fn lemma_parse_decimal(n: nat)
    requires
        n <= i32::MAX,
    ensures
        parse_i32(trim(decimal(n))) == Some(n as i32),
{
    lemma_decimal(n);
    let d = decimal(n);
    assert(trim_start(d) == d);
    assert(trim_end(d) == d);
    assert(is_digit(d[0]));
}

/// A record read back gives the process ids it was written with, and names
/// the group for reclaiming unless it is empty or the record is the
/// reader's own.
pub proof fn law_pid_record_roundtrip(zap_pid: u32, pgid: u32, started_at: u64, own_pid: i32)
    requires
        zap_pid <= i32::MAX,
        pgid <= i32::MAX,
    ensures
        pid_record_field_spec(pid_record_text_spec(zap_pid, pgid, started_at), "zap_pid"@)
            == Some(zap_pid as i32),
        pid_record_field_spec(pid_record_text_spec(zap_pid, pgid, started_at), "pgid"@) == Some(
            pgid as i32,
        ),
        orphan_candidate_spec(pid_record_text_spec(zap_pid, pgid, started_at), own_pid) == if pgid
            == 0 || zap_pid == own_pid {
            None
        } else {
            Some((zap_pid as i32, pgid as i32))
        },
{
    reveal_strlit("zap_pid=");
    reveal_strlit("zap_pid");
    reveal_strlit("\npgid=");
    reveal_strlit("pgid");
    reveal_strlit("\nstarted_at=");
    reveal_strlit("started_at");
    reveal_strlit("\n");
    let kz = "zap_pid"@;
    let kp = "pgid"@;
    let ks = "started_at"@;
    let a = kz + seq!['='] + decimal(zap_pid as nat);
    let b = kp + seq!['='] + decimal(pgid as nat);
    let c = ks + seq!['='] + decimal(started_at as nat);
    let text = pid_record_text_spec(zap_pid, pgid, started_at);
    assert(text =~= a + seq!['\n'] + (b + seq!['\n'] + (c + seq!['\n'] + Seq::<char>::empty())));
    lemma_key_value_line(kz, zap_pid as nat);
    lemma_key_value_line(kp, pgid as nat);
    lemma_key_value_line(ks, started_at as nat);
    lemma_split_lines_cons(c, Seq::<char>::empty());
    lemma_split_lines_cons(b, c + seq!['\n'] + Seq::<char>::empty());
    lemma_split_lines_cons(
        a,
        b + seq!['\n'] + (c + seq!['\n'] + Seq::<char>::empty()),
    );
    let ls = split_lines(text);
    assert(ls[0] == a);
    assert(ls.drop_first()[0] == b);
    assert(kz != kp);
    assert(record_field(ls, kz) == Some(decimal(zap_pid as nat)));
    assert(record_field(ls.drop_first(), kp) == Some(decimal(pgid as nat)));
    assert(record_field(ls, kp) == Some(decimal(pgid as nat)));
    lemma_parse_decimal(zap_pid as nat);
    lemma_parse_decimal(pgid as nat);
}

} // verus!
