//! The CEF engine version check of the settings page: compares the linked
//! CEF release with the newest one of the official build index. It only
//! reports; it never downloads or changes a setting.

use vstd::prelude::*;

use crate::json::{json_field, json_object_field, JsonField, JsonFieldView};
use crate::pid_record::{all_digits, digit_value, digits_value, is_digit};
use crate::text::{find_char_exec, from_chars, push_str, slice_range, split_once, to_chars};

verus! {

/// `u32::from_str`: an optional `+`, then one or more decimal digits, with a
/// value that fits.
pub open spec fn parse_u32(s: Seq<char>) -> Option<u32> {
    let ds = if s.len() > 0 && s[0] == '+' {
        s.drop_first()
    } else {
        s
    };
    if ds.len() > 0 && all_digits(ds) && digits_value(ds) <= u32::MAX {
        Some(digits_value(ds) as u32)
    } else {
        None
    }
}

/// Parses a decimal `u32` as `str::parse::<u32>` does.
pub fn parse_u32_exec(s: &[char]) -> (r: Option<u32>)
    ensures
        r == parse_u32(s@),
{
    let n = s.len();
    let signed = n > 0 && s[0] == '+';
    let first: usize = if signed {
        1
    } else {
        0
    };
    let ghost ds = if signed {
        s@.drop_first()
    } else {
        s@
    };
    if first == n {
        return None;
    }
    let mut acc: u64 = 0;
    let mut big = false;
    let mut k: usize = first;
    proof {
        assert(ds.take(0) =~= Seq::<char>::empty());
    }
    while k < n
        invariant
            first <= k <= n,
            n == s@.len(),
            ds =~= s@.skip(first as int),
            ds == (if signed {
                s@.drop_first()
            } else {
                s@
            }),
            signed == (s@.len() > 0 && s@[0] == '+'),
            forall|j: int| 0 <= j < k - first ==> is_digit(#[trigger] ds[j]),
            !big ==> acc == digits_value(ds.take(k - first)) && acc <= 4294967295,
            big ==> digits_value(ds.take(k - first)) > 4294967295,
        decreases n - k,
    {
        let c = s[k];
        if !('0' <= c && c <= '9') {
            proof {
                assert(ds[k - first] == c);
                assert(!is_digit(ds[k - first]));
                assert(!all_digits(ds));
            }
            return None;
        }
        let d = (c as u32 - '0' as u32) as u64;
        proof {
            let dk = ds.take(k + 1 - first);
            assert(dk.drop_last() =~= ds.take(k - first));
            assert(dk.last() == c);
            assert(d == digit_value(c));
            assert(digits_value(dk) == 10 * digits_value(ds.take(k - first)) + d);
        }
        if !big {
            acc = acc * 10 + d;
            if acc > 4294967295 {
                big = true;
            }
        }
        k += 1;
    }
    proof {
        assert(ds.take(n - first) =~= ds);
        assert(all_digits(ds));
    }
    if big {
        return None;
    }
    Some(acc as u32)
}

/// The text before the first `c`, and the text after it (if there is a `c`).
fn split_once_exec(s: &[char], c: char) -> (r: (Vec<char>, Option<Vec<char>>))
    ensures
        match split_once(s@, c) {
            Some((a, b)) => r.0@ == a && (r.1 matches Some(t) && t@ == b),
            None => r.0@ == s@ && r.1 is None,
        },
{
    let n = s.len();
    match find_char_exec(s, c) {
        Some(i) => {
            assert(i < n);
            let a = slice_range(s, 0, i);
            let b = slice_range(s, i + 1, n);
            proof {
                assert(a@ =~= s@.take(i as int));
                assert(b@ =~= s@.skip(i + 1));
            }
            (a, Some(b))
        },
        None => (slice_range(s, 0, n), None),
    }
}

/// The major, minor and patch fields of a CEF version such as
/// `152.0.8+g1ce985c+chromium-…`: the build part after `+` is dropped, the
/// patch field defaults to `0`, and fields after the patch are ignored.
pub open spec fn version_fields(raw: Seq<char>) -> Option<(Seq<char>, Seq<char>, Seq<char>)> {
    let core = match split_once(raw, '+') {
        Some((c, _)) => c,
        None => raw,
    };
    match split_once(core, '.') {
        None => None,
        Some((major, rest)) => match split_once(rest, '.') {
            None => Some((major, rest, seq!['0'])),
            Some((minor, rest2)) => Some(
                (
                    major,
                    minor,
                    match split_once(rest2, '.') {
                        Some((patch, _)) => patch,
                        None => rest2,
                    },
                ),
            ),
        },
    }
}

/// A CEF version as a comparable triple.
pub open spec fn cef_version(raw: Seq<char>) -> Option<(u32, u32, u32)> {
    match version_fields(raw) {
        Some((a, b, c)) => match (parse_u32(a), parse_u32(b), parse_u32(c)) {
            (Some(x), Some(y), Some(z)) => Some((x, y, z)),
            _ => None,
        },
        None => None,
    }
}

/// Parses the version part of a CEF version, as [`cef_version`] says.
pub fn parse_version(raw: &str) -> (r: Option<(u32, u32, u32)>)
    ensures
        r == cef_version(raw@),
{
    let cs = to_chars(raw);
    let (core, _build) = split_once_exec(&cs, '+');
    let (major, rest) = split_once_exec(&core, '.');
    let rest = match rest {
        Some(r) => r,
        None => return None,
    };
    let (minor, rest2) = split_once_exec(&rest, '.');
    let patch = match rest2 {
        Some(r2) => {
            let (p, _more) = split_once_exec(&r2, '.');
            p
        },
        None => {
            let mut zero: Vec<char> = Vec::new();
            zero.push('0');
            proof {
                assert(zero@ =~= seq!['0']);
            }
            zero
        },
    };
    let x = match parse_u32_exec(&major) {
        Some(v) => v,
        None => return None,
    };
    let y = match parse_u32_exec(&minor) {
        Some(v) => v,
        None => return None,
    };
    let z = match parse_u32_exec(&patch) {
        Some(v) => v,
        None => return None,
    };
    Some((x, y, z))
}

/// Lexicographic order on version triples.
pub open spec fn version_gt(a: (u32, u32, u32), b: (u32, u32, u32)) -> bool {
    a.0 > b.0 || (a.0 == b.0 && (a.1 > b.1 || (a.1 == b.1 && a.2 > b.2)))
}

/// Whether `latest` is newer than `installed`; `None` where either does not
/// parse.
pub open spec fn compare_spec(latest: Seq<char>, installed: Seq<char>) -> Option<bool> {
    match (cef_version(latest), cef_version(installed)) {
        (Some(l), Some(i)) => Some(version_gt(l, i)),
        _ => None,
    }
}

fn version_gt_exec(a: (u32, u32, u32), b: (u32, u32, u32)) -> (r: bool)
    ensures
        r == version_gt(a, b),
{
    a.0 > b.0 || (a.0 == b.0 && (a.1 > b.1 || (a.1 == b.1 && a.2 > b.2)))
}

/// Versions are compared field by field, the major version first: a greater
/// major version is newer whatever follows, with equal major versions a
/// greater minor version is newer, and with equal major and minor versions a
/// greater patch is newer. The order is strict and total: a version is never
/// newer than itself, of two versions at most one is newer than the other, of
/// two different versions one is, and newer-than is transitive.
pub proof fn law_version_order(a: (u32, u32, u32), b: (u32, u32, u32), c: (u32, u32, u32))
    ensures
        a.0 > b.0 ==> version_gt(a, b),
        a.0 == b.0 && a.1 > b.1 ==> version_gt(a, b),
        a.0 == b.0 && a.1 == b.1 && a.2 > b.2 ==> version_gt(a, b),
        !version_gt(a, a),
        version_gt(a, b) ==> !version_gt(b, a),
        a != b ==> version_gt(a, b) || version_gt(b, a),
        version_gt(a, b) && version_gt(b, c) ==> version_gt(a, c),
{
}

/// Of two release strings that parse, the one with the greater
/// `(major, minor, patch)` is newer: in particular a later patch of the same
/// major and minor version is an update, and the same version is none.
pub proof fn law_compare_by_version_fields(latest: Seq<char>, installed: Seq<char>)
    requires
        cef_version(latest) is Some,
        cef_version(installed) is Some,
    ensures
        ({
            let l = cef_version(latest)->0;
            let i = cef_version(installed)->0;
            &&& compare_spec(latest, installed) == Some(
                l.0 > i.0 || (l.0 == i.0 && l.1 > i.1) || (l.0 == i.0 && l.1 == i.1 && l.2 > i.2),
            )
            &&& l == i ==> compare_spec(latest, installed) == Some(false)
            &&& l.0 == i.0 && l.1 == i.1 && l.2 > i.2 ==> compare_spec(latest, installed) == Some(
                true,
            )
        }),
{
}

/// `latest > installed`, by the version part alone; `None` where either side
/// does not parse, so that an unknown format is never reported as an update.
pub fn compare(latest: &str, installed: &str) -> (r: Option<bool>)
    ensures
        r == compare_spec(latest@, installed@),
{
    let l = match parse_version(latest) {
        Some(v) => v,
        None => return None,
    };
    let i = match parse_version(installed) {
        Some(v) => v,
        None => return None,
    };
    Some(version_gt_exec(l, i))
}

/// The `cef_version` string of one entry of a `versions` array, given as
/// the entry's JSON text.
pub open spec fn entry_version(entry: Seq<char>) -> Option<Seq<char>> {
    match json_object_field(entry, "cef_version"@) {
        JsonFieldView::Str(v) => Some(v),
        _ => None,
    }
}

/// What the build index lists for a platform: `None` where the text is no
/// JSON object holding an object under the platform's key with a `versions`
/// array in it; else the `cef_version` string of each entry (`None` for an
/// entry without one).
pub open spec fn cef_index_entries(index_json: Seq<char>, platform: Seq<char>) -> Option<
    Seq<Option<Seq<char>>>,
> {
    match json_object_field(index_json, platform) {
        JsonFieldView::Object(p) => match json_object_field(p, "versions"@) {
            JsonFieldView::Array(items) => Some(items.map_values(|e: Seq<char>| entry_version(e))),
            _ => None,
        },
        _ => None,
    }
}

/// The views of optional strings.
pub open spec fn opt_views(v: Seq<Option<String>>) -> Seq<Option<Seq<char>>> {
    v.map_values(
        |o: Option<String>|
            match o {
                Some(s) => Some(s@),
                None => None,
            },
    )
}

/// Walks the index: the platform's object, its `versions` array, and the
/// `cef_version` string of each entry, as [`cef_index_entries`] says.
fn cef_index_versions(index_json: &str, platform: &str) -> (r: Option<Vec<Option<String>>>)
    ensures
        match cef_index_entries(index_json@, platform@) {
            Some(es) => r matches Some(v) && opt_views(v@) == es,
            None => r is None,
        },
{
    let p = match json_field(index_json, platform) {
        JsonField::Object(p) => p,
        _ => return None,
    };
    let items = match json_field(p.as_str(), "versions") {
        JsonField::Array(items) => items,
        _ => return None,
    };
    let ghost iv = items@.map_values(|t: String| t@);
    let ghost es = iv.map_values(|e: Seq<char>| entry_version(e));
    let mut out: Vec<Option<String>> = Vec::new();
    let mut i: usize = 0;
    while i < items.len()
        invariant
            i <= items@.len(),
            iv == items@.map_values(|t: String| t@),
            es == iv.map_values(|e: Seq<char>| entry_version(e)),
            opt_views(out@) =~= es.take(i as int),
        decreases items@.len() - i,
    {
        let v = match json_field(items[i].as_str(), "cef_version") {
            JsonField::Str(v) => Some(v),
            _ => None,
        };
        let ghost before = out@;
        proof {
            assert(iv[i as int] == items@[i as int]@);
        }
        out.push(v);
        proof {
            assert(opt_views(out@) =~= opt_views(before).push(es[i as int]));
            assert(es.take(i + 1) =~= es.take(i as int).push(es[i as int]));
        }
        i += 1;
    }
    proof {
        assert(es.take(i as int) =~= es);
    }
    Some(out)
}

/// The version of entry `m`, where it has one that parses.
pub open spec fn parsed_at(es: Seq<Option<Seq<char>>>, m: int) -> Option<(u32, u32, u32)> {
    match es[m] {
        Some(v) => cef_version(v),
        None => None,
    }
}

/// Entry `j` holds `raw`, the last of the greatest versions among `es`.
pub open spec fn is_latest_entry(es: Seq<Option<Seq<char>>>, j: int, raw: Seq<char>) -> bool {
    &&& 0 <= j < es.len()
    &&& es[j] == Some(raw)
    &&& cef_version(raw) is Some
    &&& forall|m: int|
        0 <= m < es.len() && (#[trigger] parsed_at(es, m)) is Some ==> {
            &&& !version_gt(parsed_at(es, m)->0, cef_version(raw)->0)
            &&& m > j ==> version_gt(cef_version(raw)->0, parsed_at(es, m)->0)
        }
}

/// The newest version listed for `platform`, as the build index spells it;
/// an error where the platform is missing or lists no parseable version.
pub fn latest_from_index(index_json: &str, platform: &str) -> (r: Result<String, String>)
    ensures
        cef_index_entries(index_json@, platform@) is None ==> (r matches Err(e) && e@
            == "索引里没有平台 "@ + platform@),
        cef_index_entries(index_json@, platform@) is Some ==> (r matches Err(e) ==> e@
            == "索引里没有可解析的版本号"@),
        cef_index_entries(index_json@, platform@) matches Some(es) ==> (r matches Ok(raw)
            ==> exists|j: int| #[trigger] is_latest_entry(es, j, raw@)),
        cef_index_entries(index_json@, platform@) matches Some(es) ==> (r is Err ==> forall|m: int|
            0 <= m < es.len() ==> (#[trigger] parsed_at(es, m)) is None),
{
    let entries = match cef_index_versions(index_json, platform) {
        Some(v) => v,
        None => {
            let mut msg = String::new();
            push_str(&mut msg, "索引里没有平台 ");
            push_str(&mut msg, platform);
            return Err(msg);
        },
    };
    let ghost es = opt_views(entries@);
    assert(cef_index_entries(index_json@, platform@) == Some(es));
    let mut best: Option<(usize, (u32, u32, u32), String)> = None;
    let mut i: usize = 0;
    while i < entries.len()
        invariant
            i <= entries@.len(),
            es == opt_views(entries@),
            es.len() == entries@.len(),
            cef_index_entries(index_json@, platform@) == Some(es),
            best is None ==> forall|m: int| 0 <= m < i ==> (#[trigger] parsed_at(es, m)) is None,
            best matches Some((b, key, braw)) ==> {
                &&& b < i
                &&& parsed_at(es, b as int) == Some(key)
                &&& es[b as int] == Some(braw@)
                &&& forall|m: int|
                    0 <= m < i && (#[trigger] parsed_at(es, m)) is Some ==> {
                        &&& !version_gt(parsed_at(es, m)->0, key)
                        &&& m > b ==> version_gt(key, parsed_at(es, m)->0)
                    }
            },
        decreases entries@.len() - i,
    {
        proof {
            assert(es[i as int] == match entries@[i as int] {
                Some(s) => Some(s@),
                None => None,
            });
        }
        match &entries[i] {
            Some(raw) => {
                match parse_version(raw.as_str()) {
                    Some(key) => {
                        match best {
                            None => {
                                best = Some((i, key, raw.clone()));
                            },
                            Some((b, bkey, braw)) => {
                                if !version_gt_exec(bkey, key) {
                                    best = Some((i, key, raw.clone()));
                                } else {
                                    best = Some((b, bkey, braw));
                                }
                            },
                        }
                    },
                    None => {},
                }
            },
            None => {},
        }
        i += 1;
    }
    match best {
        Some((b, _, raw)) => {
            proof {
                assert(is_latest_entry(es, b as int, raw@));
            }
            let out: Result<String, String> = Ok(raw);
            proof {
                assert(out matches Ok(found) ==> found == raw);
                assert(out matches Ok(found) ==> is_latest_entry(es, b as int, found@));
            }
            out
        },
        None => {
            assert(forall|m: int| 0 <= m < es.len() ==> (#[trigger] parsed_at(es, m)) is None);
            let mut msg = String::new();
            push_str(&mut msg, "索引里没有可解析的版本号");
            Err(msg)
        },
    }
}

/// The outcome of one check.
#[derive(Debug, Clone, PartialEq, Eq)]
pub enum CefUpdateCheck {
    /// The index has a newer release than the linked one.
    UpdateAvailable { latest: String },
    /// Up to date, or the versions cannot be compared.
    UpToDate { latest: Option<String> },
    /// The check failed (offline, timeout, bad response).
    Failed { error: String },
}

/// Judges a fetched latest version (or the fetch's error) against the
/// installed one: an update only where both parse and the latest is greater.
pub fn cef_update_outcome(fetched: Result<String, String>, installed: &str) -> (r: CefUpdateCheck)
    ensures
        match fetched {
            Ok(latest) => if compare_spec(latest@, installed@) == Some(true) {
                r == CefUpdateCheck::UpdateAvailable { latest }
            } else {
                r == CefUpdateCheck::UpToDate { latest: Some(latest) }
            },
            Err(error) => r == CefUpdateCheck::Failed { error },
        },
{
    match fetched {
        Ok(latest) => match compare(latest.as_str(), installed) {
            Some(true) => CefUpdateCheck::UpdateAvailable { latest },
            _ => CefUpdateCheck::UpToDate { latest: Some(latest) },
        },
        Err(error) => CefUpdateCheck::Failed { error },
    }
}

/// Version comparison is a strict order: never newer than itself, and of two
/// comparable versions at most one is newer.
pub proof fn law_compare_strict(a: Seq<char>, b: Seq<char>)
    ensures
        compare_spec(a, a) != Some(true),
        compare_spec(a, b) == Some(true) ==> compare_spec(b, a) == Some(false),
        compare_spec(a, b) is Some <==> compare_spec(b, a) is Some,
{
}

} // verus!
