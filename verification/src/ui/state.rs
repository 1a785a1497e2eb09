//! UI-side selections and validation helpers: left-rail steps, audio
//! mode, profile ordering, application selection and the stream-key hint.
//! Pure data and logic; drawing lives outside.

use vstd::prelude::*;
use crate::config::key_valid;
use crate::gst::probe::keep;
use crate::gst::pipeline::names_view;
use crate::text::str_eq;

verus! {

/// Left-rail steps: screen, audio, output.
#[derive(Clone, Copy, Debug, PartialEq, Eq, Structural)]
pub enum Tab {
    Screen,
    Audio,
    Output,
}

/// The i18n key of a step's title.
pub open spec fn tab_title_key(t: Tab) -> Seq<char> {
    match t {
        Tab::Screen => "steps.screen"@,
        Tab::Audio => "steps.audio"@,
        Tab::Output => "steps.output"@,
    }
}

impl Tab {
    /// Every step, in rail order.
    pub fn all() -> (r: [Tab; 3])
        ensures
            r@ == seq![Tab::Screen, Tab::Audio, Tab::Output],
    {
        [Tab::Screen, Tab::Audio, Tab::Output]
    }

    /// The i18n key of the step title.
    pub fn title_key(self) -> (r: &'static str)
        ensures
            r@ == tab_title_key(self),
    {
        match self {
            Tab::Screen => "steps.screen",
            Tab::Audio => "steps.audio",
            Tab::Output => "steps.output",
        }
    }
}

/// Audio capture mode: the whole system mix, or selected applications.
#[derive(Clone, Copy, Debug, PartialEq, Eq, Structural)]
pub enum AudioMode {
    System,
    Apps,
}

/// The wire name of an audio mode.
pub open spec fn audio_mode_name(m: AudioMode) -> Seq<char> {
    match m {
        AudioMode::System => "system"@,
        AudioMode::Apps => "apps"@,
    }
}

impl AudioMode {
    /// The mode as sent in the stream configuration ("system" / "apps").
    pub fn as_str(self) -> (r: &'static str)
        ensures
            r@ == audio_mode_name(self),
    {
        match self {
            AudioMode::System => "system",
            AudioMode::Apps => "apps",
        }
    }

    /// A restored configuration with selected apps opens in app
    /// mode, otherwise in system mode.
    pub fn for_selected_apps(apps: &Vec<String>) -> (r: AudioMode)
        ensures
            r == (if apps.len() == 0 {
                AudioMode::System
            } else {
                AudioMode::Apps
            }),
    {
        if apps.len() == 0 {
            AudioMode::System
        } else {
            AudioMode::Apps
        }
    }
}

/// Built-in profile ids, shown first in the UI.
pub const BUILTIN_PROFILE_IDS: [&'static str; 4] = ["low", "mid", "high", "1080p"];

/// The built-in profile ids as character sequences.
pub open spec fn builtin_ids() -> Seq<Seq<char>> {
    seq!["low"@, "mid"@, "high"@, "1080p"@]
}

/// The i18n key of the stream-key error, `None` for a valid key.
pub open spec fn key_error_spec(key: Seq<char>) -> Option<Seq<char>> {
    if key.len() == 0 {
        Some("stream.keyRequired"@)
    } else if !key_valid(key) {
        Some("stream.keyInvalid"@)
    } else {
        None
    }
}

/// `None` when the key is valid, otherwise the i18n key of the
/// hint: "stream.keyRequired" for an empty key, "stream.keyInvalid" for
/// one the stream-key rules reject.
pub fn key_error(stream_key: &str) -> (r: Option<&'static str>)
    ensures
        match key_error_spec(stream_key@) {
            Some(k) => r matches Some(s) && s@ == k,
            None => r is None,
        },
{
    if stream_key.unicode_len() == 0 {
        return Some("stream.keyRequired");
    }
    if crate::config::validate_stream_key(stream_key).is_err() {
        return Some("stream.keyInvalid");
    }
    None
}

/// The stream-key hint agrees with the backend's key check: there is no
/// hint exactly for the keys `validate_stream_key` accepts.
pub proof fn key_hint_matches_validation(key: Seq<char>)
    ensures
        key_error_spec(key) is None <==> key_valid(key),
{
}

/// Ids of the configured profiles in UI order: the built-ins that are
/// configured, in built-in order, then every other id in config order.
pub open spec fn profile_order(ids: Seq<Seq<char>>) -> Seq<Seq<char>> {
    keep(builtin_ids(), configured(ids)) + keep(ids, custom())
}

/// Holds of the ids that occur in `ids`.
pub open spec fn configured(ids: Seq<Seq<char>>) -> spec_fn(Seq<char>) -> bool {
    |b: Seq<char>| ids.contains(b)
}

/// Holds of the ids that are not built-in.
pub open spec fn custom() -> spec_fn(Seq<char>) -> bool {
    |k: Seq<char>| !builtin_ids().contains(k)
}

fn contains_str(v: &Vec<String>, s: &str) -> (r: bool)
    ensures
        r == names_view(v@).contains(s@),
{
    let mut i: usize = 0;
    while i < v.len()
        invariant
            i <= v.len(),
            forall|k: int| 0 <= k < i ==> names_view(v@)[k] != s@,
        decreases v.len() - i,
    {
        if str_eq(v[i].as_str(), s) {
            assert(names_view(v@)[i as int] == s@);
            return true;
        }
        i = i + 1;
    }
    false
}

proof fn lemma_builtin_view()
    ensures
        BUILTIN_PROFILE_IDS@.map_values(|s: &'static str| s@) == builtin_ids(),
        forall|k: int| 0 <= k < 4 ==> (#[trigger] BUILTIN_PROFILE_IDS@[k])@ == builtin_ids()[k],
{
    assert(BUILTIN_PROFILE_IDS@.map_values(|s: &'static str| s@) =~= builtin_ids());
}

pub(crate) fn is_builtin(id: &str) -> (r: bool)
    ensures
        r == builtin_ids().contains(id@),
{
    proof {
        lemma_builtin_view();
    }
    let mut k: usize = 0;
    while k < 4
        invariant
            k <= 4,
            forall|q: int| 0 <= q < 4 ==> (#[trigger] BUILTIN_PROFILE_IDS@[q])@ == builtin_ids()[q],
            forall|q: int| 0 <= q < k ==> builtin_ids()[q] != id@,
        decreases 4 - k,
    {
        if str_eq(id, BUILTIN_PROFILE_IDS[k]) {
            assert(builtin_ids()[k as int] == id@);
            return true;
        }
        k = k + 1;
    }
    false
}

/// Built-ins first, then custom profiles, each kept in its own order
/// (`config_ids` are the profile ids of the loaded configuration).
pub fn profile_ids(config_ids: &Vec<String>) -> (r: Vec<String>)
    ensures
        names_view(r@) == profile_order(names_view(config_ids@)),
{
    let ghost ids = names_view(config_ids@);
    let ghost pb = configured(ids);
    let ghost pc = custom();
    proof {
        lemma_builtin_view();
    }
    let mut out: Vec<String> = Vec::new();
    let mut k: usize = 0;
    while k < 4
        invariant
            k <= 4,
            ids == names_view(config_ids@),
            pb == configured(ids),
            forall|q: int| 0 <= q < 4 ==> (#[trigger] BUILTIN_PROFILE_IDS@[q])@ == builtin_ids()[q],
            names_view(out@) == keep(builtin_ids().take(k as int), pb),
        decreases 4 - k,
    {
        let ghost before = names_view(out@);
        let b = BUILTIN_PROFILE_IDS[k];
        let present = contains_str(config_ids, b);
        if present {
            out.push(String::from_str(b));
        }
        proof {
            assert(builtin_ids().take(k + 1).drop_last() =~= builtin_ids().take(k as int));
            assert(builtin_ids().take(k + 1).last() == b@);
            if present {
                assert(names_view(out@) =~= before.push(b@));
            } else {
                assert(names_view(out@) =~= before);
            }
        }
        k = k + 1;
    }
    assert(builtin_ids().take(4) =~= builtin_ids());
    let ghost head = names_view(out@);
    let mut i: usize = 0;
    while i < config_ids.len()
        invariant
            i <= config_ids.len(),
            ids == names_view(config_ids@),
            pc == custom(),
            head == keep(builtin_ids(), pb),
            names_view(out@) == head + keep(ids.take(i as int), pc),
        decreases config_ids.len() - i,
    {
        let ghost before = names_view(out@);
        let builtin = is_builtin(config_ids[i].as_str());
        if !builtin {
            out.push(config_ids[i].clone());
        }
        proof {
            assert(ids.take(i + 1).drop_last() =~= ids.take(i as int));
            assert(ids.take(i + 1).last() == config_ids@[i as int]@);
            if !builtin {
                assert(names_view(out@) =~= before.push(config_ids@[i as int]@));
            } else {
                assert(names_view(out@) =~= before);
            }
        }
        i = i + 1;
    }
    assert(ids.take(config_ids.len() as int) =~= ids);
    out
}

/// The selected application ids after toggling `id`: its first
/// occurrence is removed when present, otherwise `id` is appended.
pub open spec fn toggled_apps(apps: Seq<Seq<char>>, id: Seq<char>) -> Seq<Seq<char>> {
    if apps.contains(id) {
        apps.remove_value(id)
    } else {
        apps.push(id)
    }
}

/// Adds `id` to the selected applications, or removes its first
/// occurrence when it is already selected.
pub fn toggle_app(apps: &mut Vec<String>, id: &str)
    ensures
        names_view(final(apps)@) == toggled_apps(names_view(old(apps)@), id@),
{
    let ghost start = names_view(apps@);
    let mut i: usize = 0;
    while i < apps.len()
        invariant
            i <= apps.len(),
            start == names_view(apps@),
            start == names_view(old(apps)@),
            forall|k: int| 0 <= k < i ==> start[k] != id@,
        decreases apps.len() - i,
    {
        if str_eq(apps[i].as_str(), id) {
            proof {
                assert(start[i as int] == id@);
                assert(start.contains(id@));
                start.index_of_first_ensures(id@);
                let f = start.index_of_first(id@).unwrap();
                assert(f == i as int) by {
                    if f < i {
                        assert(start[f] != id@);
                    }
                    if f > i {
                        assert(start[i as int] != id@);
                    }
                }
                assert(toggled_apps(start, id@) == start.remove(i as int));
            }
            apps.remove(i);
            proof {
                assert(names_view(apps@) =~= start.remove(i as int));
            }
            return;
        }
        i = i + 1;
    }
    assert(!start.contains(id@));
    apps.push(String::from_str(id));
    assert(names_view(apps@) =~= start.push(id@));
}

/// Toggling an application flips whether it is selected (unless it was
/// selected twice) and leaves the selection of every other application as
/// it was.
pub proof fn toggle_flips_membership(apps: Seq<Seq<char>>, id: Seq<char>, other: Seq<char>)
    ensures
        !apps.contains(id) ==> toggled_apps(apps, id).contains(id),
        apps.contains(id) ==> (toggled_apps(apps, id).contains(id) <==> exists|a: int, b: int|
            0 <= a < b < apps.len() && apps[a] == id && apps[b] == id),
        other != id ==> (toggled_apps(apps, id).contains(other) <==> apps.contains(other)),
{
    if apps.contains(id) {
        apps.index_of_first_ensures(id);
        let p = apps.index_of_first(id).unwrap();
        let r = apps.remove(p);
        assert(toggled_apps(apps, id) == r);
        apps.remove_ensures(p);
        if r.contains(id) {
            let j = choose|j: int| 0 <= j < r.len() && r[j] == id;
            if j < p {
                assert(apps[j] == id);
                assert(false);
            } else {
                assert(apps[j + 1] == id);
                assert(0 <= p < j + 1 < apps.len() && apps[p] == id && apps[j + 1] == id);
            }
        }
        if exists|a: int, b: int| 0 <= a < b < apps.len() && apps[a] == id && apps[b] == id {
            let (a, b) = choose|a: int, b: int|
                0 <= a < b < apps.len() && apps[a] == id && apps[b] == id;
            assert(p <= a) by {
                if a < p {
                    assert(apps[a] != id);
                }
            }
            assert(r[b - 1] == id);
        }
        if apps.contains(other) && other != id {
            let j = choose|j: int| 0 <= j < apps.len() && apps[j] == other;
            if j < p {
                assert(r[j] == other);
            } else {
                assert(j != p);
                assert(r[j - 1] == other);
            }
        }
        if r.contains(other) {
            let j = choose|j: int| 0 <= j < r.len() && r[j] == other;
            if j < p {
                assert(apps[j] == other);
            } else {
                assert(apps[j + 1] == other);
            }
        }
    } else {
        let r = apps.push(id);
        assert(r[apps.len() as int] == id);
        if apps.contains(other) {
            let j = choose|j: int| 0 <= j < apps.len() && apps[j] == other;
            assert(r[j] == other);
        }
        if r.contains(other) && other != id {
            let j = choose|j: int| 0 <= j < r.len() && r[j] == other;
            assert(apps[j] == other);
        }
    }
}

} // verus!
