//! Where the dsh runtime looks for commands and for signs of an earlier
//! setup: the candidates that a `PATH` value names, and whether the data
//! directory shows that dsh has been configured.

use vstd::prelude::*;

use crate::lines::{split_on, split_on_exec};
use crate::text::{
    chars_eq, contains_sub, ends_with, find_sub_exec, from_chars, lemma_find_sub_none, matches_at, push_str,
    to_chars, trim, trim_chars,
};

verus! {

/// `PathBuf::join` of `name` onto `dir`: an absolute name replaces the
/// directory, an empty directory adds nothing, and otherwise one `/` stands
/// between the two unless the directory already ends with one.
pub open spec fn join_path(dir: Seq<char>, name: Seq<char>) -> Seq<char> {
    if name.len() > 0 && name[0] == '/' {
        name
    } else if dir.len() == 0 {
        name
    } else if dir.last() == '/' {
        dir + name
    } else {
        dir.push('/') + name
    }
}

/// The paths at which `name` is looked for, one per directory of the
/// colon-separated `path_env`, in order.
pub open spec fn path_candidates_spec(path_env: Seq<char>, name: Seq<char>) -> Seq<Seq<char>> {
    split_on(path_env, ':').map_values(|dir: Seq<char>| join_path(dir, name))
}

fn join_path_exec(dir: &Vec<char>, name: &str) -> (r: String)
    ensures
        r@ == join_path(dir@, name@),
{
    let n = to_chars(name);
    if n.len() > 0 && n[0] == '/' {
        return from_chars(&n);
    }
    let mut out = from_chars(dir);
    if dir.len() > 0 && dir[dir.len() - 1] != '/' {
        out.push('/');
    }
    push_str(&mut out, name);
    out
}

/// The candidate paths of `name` along `path_env` (`std::env::split_paths`
/// on a Unix `PATH`, each directory joined with `name`); the caller takes the
/// first that is an executable file.
pub fn path_candidates(path_env: &str, name: &str) -> (r: Vec<String>)
    ensures
        r@.map_values(|p: String| p@) == path_candidates_spec(path_env@, name@),
{
    let dirs = split_on_exec(path_env, ':');
    let ghost dv = dirs@.map_values(|v: Vec<char>| v@);
    let mut out: Vec<String> = Vec::new();
    let mut i: usize = 0;
    while i < dirs.len()
        invariant
            i <= dirs@.len(),
            dv == dirs@.map_values(|v: Vec<char>| v@),
            dv == split_on(path_env@, ':'),
            out@.map_values(|p: String| p@) == dv.take(i as int).map_values(
                |dir: Seq<char>| join_path(dir, name@),
            ),
        decreases dirs@.len() - i,
    {
        let p = join_path_exec(&dirs[i], name);
        let ghost before = out@;
        out.push(p);
        proof {
            assert(dv.take(i + 1) =~= dv.take(i as int).push(dirs@[i as int]@));
            assert(out@.map_values(|p: String| p@) =~= before.map_values(|p: String| p@).push(
                join_path(dirs@[i as int]@, name@),
            ));
            assert(dv.take(i + 1).map_values(|dir: Seq<char>| join_path(dir, name@)) =~= dv.take(
                i as int,
            ).map_values(|dir: Seq<char>| join_path(dir, name@)).push(
                join_path(dirs@[i as int]@, name@),
            ));
        }
        i += 1;
    }
    proof {
        assert(dv.take(i as int) =~= dv);
    }
    out
}

/// Whether dsh has been set up: its `settings.yaml` exists, or its
/// `storages` directory holds an entry other than the initial
/// `workspace.json`.
pub open spec fn is_configured_spec(settings_exists: bool, storage_entries: Seq<Seq<char>>) -> bool {
    settings_exists || exists|i: int| 0 <= i < storage_entries.len() && storage_entries[i]
        != "workspace.json"@
}

/// Decides [`is_configured_spec`] from what the data directory holds: whether
/// `settings.yaml` is a file, and the names of the entries of `storages`.
pub fn is_configured_from(settings_exists: bool, storage_entries: &[String]) -> (r: bool)
    ensures
        r == is_configured_spec(settings_exists, storage_entries@.map_values(|e: String| e@)),
{
    if settings_exists {
        return true;
    }
    let initial = to_chars("workspace.json");
    let ghost ev = storage_entries@.map_values(|e: String| e@);
    let mut i: usize = 0;
    while i < storage_entries.len()
        invariant
            i <= storage_entries@.len(),
            initial@ == "workspace.json"@,
            ev == storage_entries@.map_values(|e: String| e@),
            forall|j: int| 0 <= j < i ==> ev[j] == "workspace.json"@,
        decreases storage_entries@.len() - i,
    {
        if !chars_eq(&to_chars(storage_entries[i].as_str()), &initial) {
            proof {
                assert(ev[i as int] == storage_entries@[i as int]@);
            }
            return true;
        }
        i += 1;
    }
    proof {
        assert forall|j: int| 0 <= j < ev.len() implies ev[j] == "workspace.json"@ by {}
    }
    false
}

/// The entry that makes dsh load the Zap bridge client plugin, by its
/// package name.
pub const BRIDGE_CLIENT_PATCH_ENTRY: &'static str = "- insert:\n    - id: zap-bridge-client\n      name: '@zap/zap-bridge-client'\n";

/// The profile's `cordis.patch.yml` after registering the bridge client:
/// unchanged (`None`, nothing to write) when it names the client already;
/// otherwise the entry is appended, replacing dsh's empty flow list `[]`
/// and after a line break that the text lacked.
pub open spec fn patched_cordis_spec(existing: Seq<char>) -> Option<Seq<char>> {
    if contains_sub(existing, "zap-bridge-client"@) {
        None
    } else if trim(existing) == "[]"@ {
        Some(BRIDGE_CLIENT_PATCH_ENTRY@)
    } else if existing.len() > 0 && existing.last() != '\n' {
        Some(existing.push('\n') + BRIDGE_CLIENT_PATCH_ENTRY@)
    } else {
        Some(existing + BRIDGE_CLIENT_PATCH_ENTRY@)
    }
}

/// Computes [`patched_cordis_spec`] for the current patch text (empty when
/// the file does not exist yet).
pub fn patched_cordis(existing: &str) -> (r: Option<String>)
    ensures
        match patched_cordis_spec(existing@) {
            Some(t) => r matches Some(v) && v@ == t,
            None => r is None,
        },
{
    let cs = to_chars(existing);
    let marker = to_chars("zap-bridge-client");
    proof {
        lemma_find_sub_none(cs@, marker@);
    }
    if find_sub_exec(&cs, &marker).is_some() {
        return None;
    }
    let mut out = String::new();
    if chars_eq(&trim_chars(&cs), &to_chars("[]")) {
        push_str(&mut out, BRIDGE_CLIENT_PATCH_ENTRY);
        return Some(out);
    }
    push_str(&mut out, existing);
    if cs.len() > 0 && cs[cs.len() - 1] != '\n' {
        out.push('\n');
    }
    push_str(&mut out, BRIDGE_CLIENT_PATCH_ENTRY);
    Some(out)
}

/// Registering the bridge client is idempotent: a patched file names the
/// client, so patching it again writes nothing.
pub proof fn law_bridge_client_patch_is_idempotent(existing: Seq<char>)
    ensures
        patched_cordis_spec(existing) matches Some(t) ==> patched_cordis_spec(t) is None,
{
    if let Some(t) = patched_cordis_spec(existing) {
        let entry = BRIDGE_CLIENT_PATCH_ENTRY@;
        let marker = "zap-bridge-client"@;
        assert(entry.len() == 75 && marker.len() == 17) by {
            reveal_strlit("- insert:\n    - id: zap-bridge-client\n      name: '@zap/zap-bridge-client'\n");
            reveal_strlit("zap-bridge-client");
        }
        assert(entry.subrange(20, 37) =~= marker) by {
            reveal_strlit("- insert:\n    - id: zap-bridge-client\n      name: '@zap/zap-bridge-client'\n");
            reveal_strlit("zap-bridge-client");
        }
        let p = t.len() - entry.len();
        assert(t.skip(p) =~= entry);
        assert(t.subrange(p + 20, p + 37) =~= entry.subrange(20, 37));
        assert(matches_at(t, marker, p + 20));
    }
}

} // verus!
