//! Update hints for the globally installed dsh: which npm dist-tags carry a
//! newer semver version than the installed one, and the command that upgrades
//! to a channel.

use vstd::prelude::*;

use crate::cat_file::{lossy_utf8, utf8_lossy};
use crate::json::{json_field, json_object_field, JsonField, JsonFieldView};
use crate::text::{chars_eq, from_chars, push_str, to_chars, trim, trim_chars};

verus! {

/// The npm package of dsh.
pub const DSH_NPM_PACKAGE: &'static str = "@deepseek-ai/dsh";

/// The stable channel; the others are preview channels.
pub const CHANNEL_LATEST: &'static str = "latest";

/// The channel of release candidates.
pub const CHANNEL_NEXT: &'static str = "next";

/// The channel of alpha builds.
pub const CHANNEL_ALPHA: &'static str = "alpha";

/// The update channels, in the order in which they are checked and shown.
pub fn update_channels() -> (r: Vec<&'static str>)
    ensures
        r@.len() == 3,
        r@[0]@ == CHANNEL_LATEST@,
        r@[1]@ == CHANNEL_NEXT@,
        r@[2]@ == CHANNEL_ALPHA@,
{
    let mut v: Vec<&'static str> = Vec::new();
    v.push(CHANNEL_LATEST);
    v.push(CHANNEL_NEXT);
    v.push(CHANNEL_ALPHA);
    v
}

/// Whether `c` names one of the update channels.
pub open spec fn is_update_channel(c: Seq<char>) -> bool {
    c == CHANNEL_LATEST@ || c == CHANNEL_NEXT@ || c == CHANNEL_ALPHA@
}

/// What `semver` says of two version strings: `None` where either fails
/// `semver::Version::parse`, else whether the first version is greater in
/// semver precedence (`Version`'s `Ord`).
pub uninterp spec fn semver_newer(latest: Seq<char>, installed: Seq<char>) -> Option<bool>;

/// Parses both strings with `semver::Version::parse` and compares them with
/// `>`. The contract names the result ([`semver_newer`]) and states what
/// `Version`'s total order gives: no version is newer than itself, and of two
/// parsed versions at most one is newer than the other.
#[verifier::external_body]
fn semver_compare(latest: &str, installed: &str) -> (r: Option<bool>)
    ensures
        r == semver_newer(latest@, installed@),
        latest@ == installed@ ==> r != Some(true),
        r is Some <==> semver_newer(installed@, latest@) is Some,
        r == Some(true) ==> semver_newer(installed@, latest@) == Some(false),
{
    match (semver::Version::parse(latest), semver::Version::parse(installed)) {
        (Ok(l), Ok(i)) => Some(l > i),
        _ => None,
    }
}

/// Whether the registry's `latest` is newer than `installed`: both must be
/// valid semver (pre-releases order below their release); otherwise no.
pub fn is_update_available(latest: &str, installed: &str) -> (r: bool)
    ensures
        r == (semver_newer(latest@, installed@) == Some(true)),
        latest@ == installed@ ==> !r,
        r ==> semver_newer(installed@, latest@) == Some(false),
{
    match semver_compare(latest, installed) {
        Some(newer) => newer,
        None => false,
    }
}

/// The global upgrade command for a channel: `latest` uses the default tag,
/// the preview channels name their tag.
pub open spec fn upgrade_command_spec(channel: Seq<char>) -> Seq<char> {
    if channel == CHANNEL_LATEST@ {
        "npm install -g "@ + DSH_NPM_PACKAGE@
    } else {
        "npm install -g "@ + DSH_NPM_PACKAGE@ + "@"@ + channel
    }
}

/// The global upgrade command for `channel`.
pub fn upgrade_command(channel: &str) -> (r: String)
    ensures
        r@ == upgrade_command_spec(channel@),
{
    let mut out = String::new();
    push_str(&mut out, "npm install -g ");
    push_str(&mut out, DSH_NPM_PACKAGE);
    if !chars_eq(&to_chars(channel), &to_chars(CHANNEL_LATEST)) {
        push_str(&mut out, "@");
        push_str(&mut out, channel);
    }
    out
}

/// The views of `(channel, version)` pairs.
pub open spec fn tag_views(tags: Seq<(&'static str, String)>) -> Seq<(Seq<char>, Seq<char>)> {
    tags.map_values(|t: (&'static str, String)| (t.0@, t.1@))
}

/// The pairs of `tags`, in order, whose channel is an update channel and
/// whose version is newer than `installed`.
pub open spec fn channel_updates_spec(installed: Seq<char>, tags: Seq<(Seq<char>, Seq<char>)>) -> Seq<
    (Seq<char>, Seq<char>),
>
    decreases tags.len(),
{
    if tags.len() == 0 {
        seq![]
    } else {
        let rest = channel_updates_spec(installed, tags.drop_last());
        let t = tags.last();
        if is_update_channel(t.0) && semver_newer(t.1, installed) == Some(true) {
            rest.push(t)
        } else {
            rest
        }
    }
}

/// Whether `channel` is one of the update channels.
pub fn is_update_channel_exec(channel: &str) -> (r: bool)
    ensures
        r == is_update_channel(channel@),
{
    let c = to_chars(channel);
    chars_eq(&c, &to_chars(CHANNEL_LATEST)) || chars_eq(&c, &to_chars(CHANNEL_NEXT)) || chars_eq(
        &c,
        &to_chars(CHANNEL_ALPHA),
    )
}

/// The channels among the registry's dist-tags that the installed version
/// lags behind, with their versions, in the order of `tags`.
pub fn channel_updates(installed: &str, tags: &[(&'static str, String)]) -> (r: Vec<
    (&'static str, String),
>)
    ensures
        tag_views(r@) == channel_updates_spec(installed@, tag_views(tags@)),
        forall|k: int| 0 <= k < r@.len() ==> #[trigger] r@[k].1@ != installed@,
{
    let mut out: Vec<(&'static str, String)> = Vec::new();
    let mut i: usize = 0;
    proof {
        assert(tag_views(tags@).take(0) =~= Seq::<(Seq<char>, Seq<char>)>::empty());
        assert(tag_views(out@) =~= Seq::<(Seq<char>, Seq<char>)>::empty());
    }
    while i < tags.len()
        invariant
            i <= tags@.len(),
            tag_views(out@) == channel_updates_spec(installed@, tag_views(tags@).take(i as int)),
            forall|k: int| 0 <= k < out@.len() ==> #[trigger] out@[k].1@ != installed@,
        decreases tags@.len() - i,
    {
        proof {
            assert(tag_views(tags@).take(i + 1).drop_last() =~= tag_views(tags@).take(i as int));
            assert(tag_views(tags@).take(i + 1).last() == (tags@[i as int].0@, tags@[i as int].1@));
        }
        let channel = tags[i].0;
        let latest = &tags[i].1;
        if is_update_channel_exec(channel) && is_update_available(latest.as_str(), installed) {
            let ghost before = out@;
            out.push((channel, latest.clone()));
            proof {
                assert(tag_views(out@) =~= tag_views(before).push(
                    (tags@[i as int].0@, tags@[i as int].1@),
                ));
            }
        }
        i += 1;
    }
    proof {
        assert(tag_views(tags@).take(i as int) =~= tag_views(tags@));
    }
    out
}

/// One check of the dsh channels: the installed version and the latest
/// version on each enabled channel.
#[derive(Debug, Clone)]
pub struct DshChannelsSnapshot {
    /// The output of `dsh --version`; `None` where dsh is missing or failed.
    pub installed: Option<String>,
    /// `(channel, latest version)` for the enabled channels, in the order of
    /// [`update_channels`]; empty where the registry could not be asked.
    pub channels: Vec<(&'static str, String)>,
}

impl Default for DshChannelsSnapshot {
    fn default() -> (r: Self)
        ensures
            r.installed is None,
            r.channels@.len() == 0,
    {
        DshChannelsSnapshot { installed: None, channels: Vec::new() }
    }
}

/// The outcome of the global update check, shown as a hint only.
#[derive(Debug, Clone)]
pub enum DshUpdateCheck {
    /// No channel is ahead, or the check could not tell.
    UpToDate,
    /// At least one channel carries a newer semver version.
    UpdateAvailable {
        installed: String,
        /// `(channel, version)` of each channel that is ahead, in channel order.
        available: Vec<(&'static str, String)>,
    },
}

/// Decides the update hint from one snapshot: up to date where the installed
/// version is unknown or no channel is ahead of it, else the channels that are.
pub fn update_check(snapshot: DshChannelsSnapshot) -> (r: DshUpdateCheck)
    ensures
        match snapshot.installed {
            None => r is UpToDate,
            Some(inst) => {
                let avail = channel_updates_spec(inst@, tag_views(snapshot.channels@));
                if avail.len() == 0 {
                    r is UpToDate
                } else {
                    r matches DshUpdateCheck::UpdateAvailable { installed, available }
                        && installed@ == inst@ && tag_views(available@) == avail
                }
            },
        },
{
    match snapshot.installed {
        None => DshUpdateCheck::UpToDate,
        Some(installed) => {
            let available = channel_updates(installed.as_str(), snapshot.channels.as_slice());
            if available.len() == 0 {
                DshUpdateCheck::UpToDate
            } else {
                DshUpdateCheck::UpdateAvailable { installed, available }
            }
        },
    }
}

/// `(channel, version)` where the dist-tags object holds a string under
/// `channel`, else nothing.
pub open spec fn dist_tag(body: Seq<char>, channel: Seq<char>) -> Seq<(Seq<char>, Seq<char>)> {
    match json_object_field(body, channel) {
        JsonFieldView::Str(v) => seq![(channel, v)],
        _ => seq![],
    }
}

/// The update channels that the registry's dist-tags JSON names, with their
/// versions, in channel order.
pub open spec fn dist_tags_spec(body: Seq<char>) -> Seq<(Seq<char>, Seq<char>)> {
    dist_tag(body, CHANNEL_LATEST@) + dist_tag(body, CHANNEL_NEXT@) + dist_tag(body, CHANNEL_ALPHA@)
}

/// The dist-tags read cover every update channel: each of `latest`, `next`
/// and `alpha` that holds a string in the registry's answer is listed with
/// that string, and nothing else is listed, each channel at most once and in
/// channel order.
pub proof fn law_dist_tags_cover_every_channel(body: Seq<char>, c: Seq<char>, v: Seq<char>)
    ensures
        (c == CHANNEL_LATEST@ || c == CHANNEL_NEXT@ || c == CHANNEL_ALPHA@) && json_object_field(
            body,
            c,
        ) == JsonFieldView::Str(v) ==> dist_tags_spec(body).contains((c, v)),
        dist_tags_spec(body).contains((c, v)) ==> (c == CHANNEL_LATEST@ || c == CHANNEL_NEXT@ || c
            == CHANNEL_ALPHA@) && json_object_field(body, c) == JsonFieldView::Str(v),
        dist_tags_spec(body).len() <= 3,
        forall|i: int, j: int|
            0 <= i < j < dist_tags_spec(body).len() ==> dist_tags_spec(body)[i].0
                != dist_tags_spec(body)[j].0,
{
    reveal_strlit("latest");
    reveal_strlit("next");
    reveal_strlit("alpha");
    let a = dist_tag(body, CHANNEL_LATEST@);
    let b = dist_tag(body, CHANNEL_NEXT@);
    let d = dist_tag(body, CHANNEL_ALPHA@);
    let all = dist_tags_spec(body);
    assert(all =~= a + b + d);
    assert(CHANNEL_LATEST@ != CHANNEL_NEXT@ && CHANNEL_LATEST@ != CHANNEL_ALPHA@
        && CHANNEL_NEXT@ != CHANNEL_ALPHA@) by {
        assert(CHANNEL_LATEST@.len() == 6 && CHANNEL_NEXT@.len() == 4);
        assert(CHANNEL_ALPHA@.len() == 5);
    }
    if (c == CHANNEL_LATEST@ || c == CHANNEL_NEXT@ || c == CHANNEL_ALPHA@) && json_object_field(
        body,
        c,
    ) == JsonFieldView::Str(v) {
        if c == CHANNEL_LATEST@ {
            assert(all[0] == (c, v));
        } else if c == CHANNEL_NEXT@ {
            assert(all[a.len() as int] == (c, v));
        } else {
            assert(all[(a.len() + b.len()) as int] == (c, v));
        }
    }
    if all.contains((c, v)) {
        let k = choose|k: int| 0 <= k < all.len() && all[k] == (c, v);
        if k < a.len() {
            assert(a[k] == (c, v));
        } else if k < a.len() + b.len() {
            assert(b[k - a.len()] == (c, v));
        } else {
            assert(d[k - a.len() - b.len()] == (c, v));
        }
    }
    assert forall|i: int, j: int| 0 <= i < j < all.len() implies all[i].0 != all[j].0 by {
        let ci = if i < a.len() {
            CHANNEL_LATEST@
        } else if i < a.len() + b.len() {
            CHANNEL_NEXT@
        } else {
            CHANNEL_ALPHA@
        };
        let cj = if j < a.len() {
            CHANNEL_LATEST@
        } else if j < a.len() + b.len() {
            CHANNEL_NEXT@
        } else {
            CHANNEL_ALPHA@
        };
        assert(all[i].0 == ci);
        assert(all[j].0 == cj);
    }
}

fn push_dist_tag(out: &mut Vec<(&'static str, String)>, body: &str, channel: &'static str)
    ensures
        tag_views(final(out)@) == tag_views(old(out)@) + dist_tag(body@, channel@),
{
    let ghost before = out@;
    match json_field(body, channel) {
        JsonField::Str(v) => {
            out.push((channel, v));
            proof {
                assert(tag_views(out@) =~= tag_views(before) + dist_tag(body@, channel@));
            }
        },
        _ => {
            proof {
                assert(tag_views(out@) =~= tag_views(before) + dist_tag(body@, channel@));
            }
        },
    }
}

/// Reads the body of the registry's `/-/package/<pkg>/dist-tags` answer:
/// the version under each update channel that holds a string.
pub fn parse_dist_tags(body: &str) -> (r: Vec<(&'static str, String)>)
    ensures
        tag_views(r@) == dist_tags_spec(body@),
{
    let mut out: Vec<(&'static str, String)> = Vec::new();
    proof {
        assert(tag_views(out@) =~= Seq::<(Seq<char>, Seq<char>)>::empty());
    }
    push_dist_tag(&mut out, body, CHANNEL_LATEST);
    push_dist_tag(&mut out, body, CHANNEL_NEXT);
    push_dist_tag(&mut out, body, CHANNEL_ALPHA);
    proof {
        assert(tag_views(out@) =~= dist_tags_spec(body@));
    }
    out
}

/// Whether the dsh settings enable `channel`: the boolean at
/// `dsh_update_channels.<channel>`; enabled where the settings are missing,
/// are no JSON object, or hold no boolean there.
pub open spec fn channel_enabled_spec(settings: Option<Seq<char>>, channel: Seq<char>) -> bool {
    match settings {
        None => true,
        Some(text) => match json_object_field(text, "dsh_update_channels"@) {
            JsonFieldView::Object(inner) => match json_object_field(inner, channel) {
                JsonFieldView::Bool(b) => b,
                _ => true,
            },
            _ => true,
        },
    }
}

/// Whether `channel` is enabled by the settings text (`None` where the
/// settings file could not be read).
pub fn dsh_channel_enabled(settings: Option<&str>, channel: &str) -> (r: bool)
    ensures
        r == channel_enabled_spec(
            match settings {
                Some(t) => Some(t@),
                None => None,
            },
            channel@,
        ),
{
    match settings {
        None => true,
        Some(text) => match json_field(text, "dsh_update_channels") {
            JsonField::Object(inner) => match json_field(inner.as_str(), channel) {
                JsonField::Bool(b) => b,
                _ => true,
            },
            _ => true,
        },
    }
}

/// The tags whose channel the settings enable, in order.
pub open spec fn enabled_tags(settings: Option<Seq<char>>, tags: Seq<(Seq<char>, Seq<char>)>) -> Seq<
    (Seq<char>, Seq<char>),
>
    decreases tags.len(),
{
    if tags.len() == 0 {
        seq![]
    } else {
        let rest = enabled_tags(settings, tags.drop_last());
        if channel_enabled_spec(settings, tags.last().0) {
            rest.push(tags.last())
        } else {
            rest
        }
    }
}

/// Assembles a snapshot from the installed version and the registry's tags,
/// keeping the channels that the settings text enables.
pub fn channels_snapshot(
    installed: Option<String>,
    tags: Vec<(&'static str, String)>,
    settings: Option<&str>,
) -> (r: DshChannelsSnapshot)
    ensures
        r.installed == installed,
        tag_views(r.channels@) == enabled_tags(
            match settings {
                Some(t) => Some(t@),
                None => None,
            },
            tag_views(tags@),
        ),
{
    let ghost sv = match settings {
        Some(t) => Some(t@),
        None => None,
    };
    let mut channels: Vec<(&'static str, String)> = Vec::new();
    let mut i: usize = 0;
    proof {
        assert(tag_views(tags@).take(0) =~= Seq::<(Seq<char>, Seq<char>)>::empty());
        assert(tag_views(channels@) =~= Seq::<(Seq<char>, Seq<char>)>::empty());
    }
    while i < tags.len()
        invariant
            i <= tags@.len(),
            sv == match settings {
                Some(t) => Some(t@),
                None => None::<Seq<char>>,
            },
            tag_views(channels@) == enabled_tags(sv, tag_views(tags@).take(i as int)),
        decreases tags@.len() - i,
    {
        proof {
            assert(tag_views(tags@).take(i + 1).drop_last() =~= tag_views(tags@).take(i as int));
            assert(tag_views(tags@).take(i + 1).last() == (tags@[i as int].0@, tags@[i as int].1@));
        }
        if dsh_channel_enabled(settings, tags[i].0) {
            let ghost before = channels@;
            channels.push((tags[i].0, tags[i].1.clone()));
            proof {
                assert(tag_views(channels@) =~= tag_views(before).push(
                    (tags@[i as int].0@, tags@[i as int].1@),
                ));
            }
        }
        i += 1;
    }
    proof {
        assert(tag_views(tags@).take(i as int) =~= tag_views(tags@));
    }
    DshChannelsSnapshot { installed, channels }
}

/// The installed version from the standard output of `dsh --version`: the
/// text decoded lossily and trimmed.
pub fn installed_version_from_output(stdout: &[u8]) -> (r: String)
    ensures
        r@ == trim(lossy_utf8(stdout@)),
{
    let text = utf8_lossy(stdout);
    let chars = to_chars(text.as_str());
    from_chars(&trim_chars(&chars))
}

} // verus!
