//! Output profiles, TopazChat limits, stream-key rules, and editing the
//! profile list (add, duplicate, delete).

use vstd::prelude::*;
use vstd::relations::injective_on;
use vstd::set_lib::{lemma_int_range, lemma_len_subset, lemma_map_size, set_int_range};
use crate::error::Error;
use crate::text::{decimal, lemma_decimal_injective, push_decimal, push_str, str_eq};
use crate::ui::state::{builtin_ids, is_builtin};

verus! {

/// TopazChat video bitrate limit (kbps); above it the server disconnects.
pub const MAX_VIDEO_KBPS: u32 = 2000;
/// TopazChat audio bitrate limit (kbps).
pub const MAX_AUDIO_KBPS: u32 = 320;

/// One output profile: geometry, frame rate, bitrates and encoder choice.
#[derive(Debug, Clone, PartialEq)]
pub struct Profile {
    pub name: String,
    pub w: u32,
    pub h: u32,
    pub fps: u32,
    pub v_kbps: u32,
    pub a_kbps: u32,
    pub encoder: String,
    pub warn: Option<String>,
}

impl Profile {
    /// A field-by-field copy of the profile.
    pub fn duplicate(&self) -> (r: Profile)
        ensures
            r == *self,
    {
        Profile {
            name: self.name.clone(),
            w: self.w,
            h: self.h,
            fps: self.fps,
            v_kbps: self.v_kbps,
            a_kbps: self.a_kbps,
            encoder: self.encoder.clone(),
            warn: match &self.warn {
                Some(m) => Some(m.clone()),
                None => None,
            },
        }
    }

    /// Keyframe interval in frames: a fixed two-second GOP.
    pub fn gop(&self) -> (g: u32)
        requires
            self.fps * 2 <= u32::MAX,
        ensures
            g == self.fps * 2,
    {
        self.fps * 2
    }
}

/// True when both bitrates are within the TopazChat limits.
pub open spec fn bitrate_ok(v_kbps: u32, a_kbps: u32) -> bool {
    v_kbps <= MAX_VIDEO_KBPS && a_kbps <= MAX_AUDIO_KBPS
}

/// Reject profiles above the TopazChat limits.
pub fn validate_bitrate(v_kbps: u32, a_kbps: u32) -> (r: Result<(), Error>)
    ensures
        r is Ok <==> bitrate_ok(v_kbps, a_kbps),
        r is Err ==> r == Err::<(), Error>(Error::BitrateOver { v_kbps, a_kbps }),
{
    if v_kbps > MAX_VIDEO_KBPS || a_kbps > MAX_AUDIO_KBPS {
        Err(Error::BitrateOver { v_kbps, a_kbps })
    } else {
        Ok(())
    }
}

/// Characters allowed in a stream key: ASCII letters, digits, `-`, `_`.
pub open spec fn key_char_ok(c: char) -> bool {
    ('a' <= c && c <= 'z') || ('A' <= c && c <= 'Z') || ('0' <= c && c <= '9') || c == '-'
        || c == '_'
}

/// A stream key of 3 to 64 allowed characters.
pub open spec fn key_valid(k: Seq<char>) -> bool {
    &&& 3 <= k.len() <= 64
    &&& forall|i: int| 0 <= i < k.len() ==> key_char_ok(#[trigger] k[i])
}

/// Message for a key of the wrong length.
pub open spec fn key_length_message() -> Seq<char> {
    "stream key must be 3-64 characters"@
}

/// Message for a key with a character outside the allowed set.
pub open spec fn key_charset_message() -> Seq<char> {
    "stream key may contain only letters, digits, '-' and '_'"@
}

/// The characters a stream key may use are exactly the ASCII letters of
/// either case, the ASCII digits, `-` and `_`.
pub proof fn key_chars_are_ascii_alnum_dash_underscore(c: char)
    ensures
        ('A' <= c && c <= 'Z') ==> key_char_ok(c),
        ('a' <= c && c <= 'z') ==> key_char_ok(c),
        ('0' <= c && c <= '9') ==> key_char_ok(c),
        key_char_ok('-') && key_char_ok('_'),
        key_char_ok(c) ==> (('A' <= c && c <= 'Z') || ('a' <= c && c <= 'z') || ('0' <= c && c
            <= '9') || c == '-' || c == '_'),
{
}

/// A stream key is valid exactly when it has 3 to 64 characters, each an
/// ASCII letter (upper or lower case), an ASCII digit, `-` or `_`.
pub proof fn stream_key_rule(k: Seq<char>)
    ensures
        key_valid(k) <==> (3 <= k.len() <= 64 && forall|i: int|
            0 <= i < k.len() ==> ({
                let c = #[trigger] k[i];
                ('A' <= c && c <= 'Z') || ('a' <= c && c <= 'z') || ('0' <= c && c <= '9') || c
                    == '-' || c == '_'
            })),
{
}

fn key_char_allowed(c: char) -> (r: bool)
    ensures
        r == key_char_ok(c),
{
    ('a' <= c && c <= 'z') || ('A' <= c && c <= 'Z') || ('0' <= c && c <= '9') || c == '-'
        || c == '_'
}

/// 3-64 characters from `[A-Za-z0-9_-]`. The length is checked
/// first, then the character set.
pub fn validate_stream_key(key: &str) -> (r: Result<(), Error>)
    ensures
        r is Ok <==> key_valid(key@),
        !(3 <= key@.len() <= 64) ==> (r matches Err(Error::StreamKey(m)) && m@
            == key_length_message()),
        (3 <= key@.len() <= 64 && !key_valid(key@)) ==> (r matches Err(Error::StreamKey(m)) && m@
            == key_charset_message()),
{
    let chars = crate::text::chars_of(key);
    if chars.len() < 3 || chars.len() > 64 {
        return Err(Error::StreamKey(String::from_str("stream key must be 3-64 characters")));
    }
    let mut i: usize = 0;
    while i < chars.len()
        invariant
            chars@ == key@,
            3 <= chars.len() <= 64,
            i <= chars.len(),
            forall|k: int| 0 <= k < i ==> key_char_ok(#[trigger] chars@[k]),
        decreases chars.len() - i,
    {
        if !key_char_allowed(chars[i]) {
            return Err(
                Error::StreamKey(
                    String::from_str("stream key may contain only letters, digits, '-' and '_'"),
                ),
            );
        }
        i = i + 1;
    }
    Ok(())
}

/// The built-in profile stored under `id` has this geometry and bitrates,
/// the `auto` encoder, and the given name.
pub open spec fn builtin_profile(
    entry: (String, Profile),
    id: Seq<char>,
    name: Seq<char>,
    w: u32,
    h: u32,
    fps: u32,
    v_kbps: u32,
    a_kbps: u32,
) -> bool {
    &&& entry.0@ == id
    &&& entry.1.name@ == name
    &&& entry.1.w == w
    &&& entry.1.h == h
    &&& entry.1.fps == fps
    &&& entry.1.v_kbps == v_kbps
    &&& entry.1.a_kbps == a_kbps
    &&& entry.1.encoder@ == "auto"@
}

fn profile(name: &str, w: u32, h: u32, fps: u32, v_kbps: u32, a_kbps: u32) -> (p: Profile)
    ensures
        p.name@ == name@,
        p.w == w,
        p.h == h,
        p.fps == fps,
        p.v_kbps == v_kbps,
        p.a_kbps == a_kbps,
        p.encoder@ == "auto"@,
        p.warn is None,
{
    Profile {
        name: String::from_str(name),
        w,
        h,
        fps,
        v_kbps,
        a_kbps,
        encoder: String::from_str("auto"),
        warn: None,
    }
}

/// The four built-in profiles, low/mid/high/1080p, all within the
/// TopazChat limits. Only `1080p` carries a warning.
pub fn default_profiles() -> (r: Vec<(String, Profile)>)
    ensures
        r.len() == 4,
        builtin_profile(r@[0], "low"@, "低画質"@, 854, 480, 30, 800, 128),
        builtin_profile(r@[1], "mid"@, "中画質"@, 1280, 720, 30, 1500, 192),
        builtin_profile(r@[2], "high"@, "高画質"@, 1280, 720, 60, 2000, 320),
        builtin_profile(r@[3], "1080p"@, "1080p"@, 1920, 1080, 30, 2000, 320),
        r@[0].1.warn is None,
        r@[1].1.warn is None,
        r@[2].1.warn is None,
        r@[3].1.warn matches Some(m) && m@ == "Topaz上限2000kのため720p推奨"@,
        keys_unique(r@),
{
    let mut v: Vec<(String, Profile)> = Vec::new();
    v.push((String::from_str("low"), profile("低画質", 854, 480, 30, 800, 128)));
    v.push((String::from_str("mid"), profile("中画質", 1280, 720, 30, 1500, 192)));
    v.push((String::from_str("high"), profile("高画質", 1280, 720, 60, 2000, 320)));
    let mut hd = profile("1080p", 1920, 1080, 30, 2000, 320);
    hd.warn = Some(String::from_str("Topaz上限2000kのため720p推奨"));
    v.push((String::from_str("1080p"), hd));
    proof {
        reveal_strlit("low");
        reveal_strlit("mid");
        reveal_strlit("high");
        reveal_strlit("1080p");
        let k = profile_keys(v@);
        assert(k[0][0] == 'l' && k[1][0] == 'm' && k[2][0] == 'h' && k[3][0] == '1');
    }
    v
}

// ---------------------------------------------------------------------------
// editing the profile list

/// The keys of a profile list, in order.
pub open spec fn profile_keys(ps: Seq<(String, Profile)>) -> Seq<Seq<char>> {
    ps.map_values(|e: (String, Profile)| e.0@)
}

/// No key occurs twice in a profile list: the invariant that add,
/// duplicate and remove keep.
pub open spec fn keys_unique(ps: Seq<(String, Profile)>) -> bool {
    profile_keys(ps).no_duplicates()
}

/// `base` followed by the decimal digits of `n`.
pub open spec fn numbered(base: Seq<char>, n: nat) -> Seq<char> {
    base + decimal(n)
}

/// `n` is the least number from 1 on for which `base{n}` is not among
/// `keys`.
pub open spec fn least_free(keys: Seq<Seq<char>>, base: Seq<char>, n: nat) -> bool {
    &&& n >= 1
    &&& !keys.contains(numbered(base, n))
    &&& forall|m: nat| 1 <= m < n ==> keys.contains(#[trigger] numbered(base, m))
}

/// The index of the first profile stored under `id`, if any.
pub open spec fn key_index(ps: Seq<(String, Profile)>, id: Seq<char>) -> Option<int> {
    if profile_keys(ps).contains(id) {
        Some(profile_keys(ps).index_of_first(id)->0)
    } else {
        None
    }
}

/// The profiles of `ps` not stored under `id`, in order.
pub open spec fn without_key(ps: Seq<(String, Profile)>, id: Seq<char>) -> Seq<(String, Profile)>
    decreases ps.len(),
{
    if ps.len() == 0 {
        ps
    } else {
        without_key(ps.drop_last(), id) + if ps.last().0@ == id {
            Seq::empty()
        } else {
            seq![ps.last()]
        }
    }
}

proof fn lemma_numbered_injective(base: Seq<char>, a: nat, b: nat)
    requires
        numbered(base, a) == numbered(base, b),
    ensures
        a == b,
{
    assert(numbered(base, a).skip(base.len() as int) =~= decimal(a));
    assert(numbered(base, b).skip(base.len() as int) =~= decimal(b));
    lemma_decimal_injective(a, b);
}

/// When `base1` .. `base{n}` are all taken, there are at least `n` keys.
proof fn lemma_taken_numbers_bounded(keys: Seq<Seq<char>>, base: Seq<char>, n: nat)
    requires
        forall|m: nat| 1 <= m <= n ==> keys.contains(#[trigger] numbered(base, m)),
    ensures
        n <= keys.len(),
{
    broadcast use vstd::seq_lib::seq_to_set_is_finite;

    let x = set_int_range(1, n as int + 1);
    lemma_int_range(1, n as int + 1);
    let f = |i: int| numbered(base, i as nat);
    assert(injective_on(f, x)) by {
        assert forall|i: int, j: int| x.contains(i) && x.contains(j) && #[trigger] f(i) == #[trigger] f(
            j,
        ) implies i == j by {
            lemma_numbered_injective(base, i as nat, j as nat);
        }
    }
    let y = x.map(f);
    lemma_map_size(x, y, f);
    assert(y.subset_of(keys.to_set())) by {
        assert forall|k: Seq<char>| y.contains(k) implies keys.to_set().contains(k) by {
            let i = choose|i: int| x.contains(i) && f(i) == k;
            assert(keys.contains(numbered(base, i as nat)));
        }
    }
    lemma_len_subset(y, keys.to_set());
    keys.lemma_cardinality_of_set();
}

fn has_key(profiles: &Vec<(String, Profile)>, key: &str) -> (r: bool)
    ensures
        r == profile_keys(profiles@).contains(key@),
{
    let mut i: usize = 0;
    while i < profiles.len()
        invariant
            i <= profiles.len(),
            forall|j: int| 0 <= j < i ==> profile_keys(profiles@)[j] != key@,
        decreases profiles.len() - i,
    {
        if str_eq(profiles[i].0.as_str(), key) {
            assert(profile_keys(profiles@)[i as int] == key@);
            return true;
        }
        i = i + 1;
    }
    false
}

fn numbered_key(base: &str, n: u64) -> (r: String)
    ensures
        r@ == numbered(base@, n as nat),
{
    let mut s = String::new();
    push_str(&mut s, base);
    push_decimal(&mut s, n);
    s
}

/// The least `n >= 1` for which `base{n}` is not a key.
fn first_free(profiles: &Vec<(String, Profile)>, base: &str) -> (n: u64)
    requires
        profiles.len() < u64::MAX,
    ensures
        least_free(profile_keys(profiles@), base@, n as nat),
{
    let ghost keys = profile_keys(profiles@);
    let mut n: u64 = 1;
    loop
        invariant
            keys == profile_keys(profiles@),
            1 <= n <= profiles.len() + 1,
            profiles.len() < u64::MAX,
            forall|m: nat| 1 <= m < n ==> keys.contains(#[trigger] numbered(base@, m)),
        decreases profiles.len() + 1 - n,
    {
        let key = numbered_key(base, n);
        if !has_key(profiles, key.as_str()) {
            return n;
        }
        proof {
            assert(forall|m: nat| 1 <= m <= n ==> keys.contains(#[trigger] numbered(base@, m)));
            lemma_taken_numbers_bounded(keys, base@, n as nat);
        }
        n = n + 1;
    }
}

/// The profile `Add` creates: "Custom n", 1280x720 at 30 fps, 1500/192 kbps,
/// automatic encoder, no warning.
pub open spec fn is_custom_profile(p: Profile, n: nat) -> bool {
    &&& p.name@ == "Custom "@ + decimal(n)
    &&& p.w == 1280
    &&& p.h == 720
    &&& p.fps == 30
    &&& p.v_kbps == 1500
    &&& p.a_kbps == 192
    &&& p.encoder@ == "auto"@
    &&& p.warn is None
}

/// Adds a custom profile under the first free id `custom{n}` (n from 1)
/// and returns that id. The new profile is "Custom n", 1280x720 at 30 fps,
/// 1500/192 kbps with the automatic encoder.
pub fn add_custom_profile(profiles: &mut Vec<(String, Profile)>) -> (id: String)
    requires
        old(profiles).len() < u64::MAX,
    ensures
        exists|n: nat|
            {
                &&& least_free(profile_keys(old(profiles)@), "custom"@, n)
                &&& id@ == numbered("custom"@, n)
                &&& final(profiles)@.len() == old(profiles)@.len() + 1
                &&& final(profiles)@.drop_last() == old(profiles)@
                &&& final(profiles)@.last().0 == id
                &&& is_custom_profile(final(profiles)@.last().1, n)
            },
        keys_unique(old(profiles)@) ==> keys_unique(final(profiles)@),
{
    let n = first_free(profiles, "custom");
    let id = numbered_key("custom", n);
    let mut name = String::from_str("Custom ");
    push_decimal(&mut name, n);
    let p = Profile {
        name,
        w: 1280,
        h: 720,
        fps: 30,
        v_kbps: 1500,
        a_kbps: 192,
        encoder: String::from_str("auto"),
        warn: None,
    };
    profiles.push((id.clone(), p));
    assert(profiles@.drop_last() =~= old(profiles)@);
    assert(is_custom_profile(profiles@.last().1, n as nat));
    assert(profile_keys(profiles@) =~= profile_keys(old(profiles)@).push(id@));
    id
}

proof fn lemma_key_index(ps: Seq<(String, Profile)>, id: Seq<char>, i: int)
    requires
        0 <= i < ps.len(),
        ps[i].0@ == id,
        forall|j: int| 0 <= j < i ==> ps[j].0@ != id,
    ensures
        key_index(ps, id) == Some(i),
{
    let keys = profile_keys(ps);
    assert(keys[i] == id);
    keys.index_of_first_ensures(id);
    let f = keys.index_of_first(id)->0;
    assert(f == i) by {
        if f < i {
            assert(keys[f] == ps[f].0@);
        }
        if f > i {
            assert(keys[i] != id);
        }
    }
}

fn find_key(profiles: &Vec<(String, Profile)>, id: &str) -> (r: Option<usize>)
    ensures
        match r {
            None => key_index(profiles@, id@) is None,
            Some(i) => key_index(profiles@, id@) == Some(i as int) && i < profiles.len(),
        },
{
    let mut i: usize = 0;
    while i < profiles.len()
        invariant
            i <= profiles.len(),
            forall|j: int| 0 <= j < i ==> profiles@[j].0@ != id@,
        decreases profiles.len() - i,
    {
        if str_eq(profiles[i].0.as_str(), id) {
            proof {
                lemma_key_index(profiles@, id@, i as int);
            }
            return Some(i);
        }
        i = i + 1;
    }
    assert(!profile_keys(profiles@).contains(id@)) by {
        if profile_keys(profiles@).contains(id@) {
            let j = choose|j: int| 0 <= j < profiles@.len() && profile_keys(profiles@)[j] == id@;
            assert(profiles@[j].0@ != id@);
        }
    }
    None
}

/// Duplicates the profile stored under `id`: the copy goes under the first
/// free key `{id}-copy{n}` (n from 1), with `-copy{n}` appended to its
/// name. `None`, and no change, when no profile is stored under `id`.
pub fn duplicate_profile(profiles: &mut Vec<(String, Profile)>, id: &str) -> (r: Option<String>)
    requires
        old(profiles).len() < u64::MAX,
    ensures
        key_index(old(profiles)@, id@) is None <==> r is None,
        r is None ==> final(profiles)@ == old(profiles)@,
        r matches Some(k) ==> exists|n: nat|
            {
                let src = old(profiles)@[key_index(old(profiles)@, id@)->0].1;
                let copy = final(profiles)@.last().1;
                &&& least_free(profile_keys(old(profiles)@), id@ + "-copy"@, n)
                &&& k@ == #[trigger] numbered(id@ + "-copy"@, n)
                &&& final(profiles)@.len() == old(profiles)@.len() + 1
                &&& final(profiles)@.drop_last() == old(profiles)@
                &&& final(profiles)@.last().0 == k
                &&& copy.name@ == src.name@ + "-copy"@ + decimal(n)
                &&& copy == Profile { name: copy.name, ..src }
            },
        keys_unique(old(profiles)@) ==> keys_unique(final(profiles)@),
{
    let i = match find_key(profiles, id) {
        Some(i) => i,
        None => {
            return None;
        },
    };
    let mut base = String::from_str(id);
    push_str(&mut base, "-copy");
    let n = first_free(profiles, base.as_str());
    let key = numbered_key(base.as_str(), n);
    let mut copy = profiles[i].1.duplicate();
    let mut name = copy.name.clone();
    push_str(&mut name, "-copy");
    push_decimal(&mut name, n);
    copy.name = name;
    profiles.push((key.clone(), copy));
    assert(profiles@.drop_last() =~= old(profiles)@);
    assert(profile_keys(profiles@) =~= profile_keys(old(profiles)@).push(key@));
    proof {
        reveal_strlit("-copy");
        assert(numbered(base@, n as nat) == numbered(id@ + "-copy"@, n as nat));
        assert(profiles@.last().1.name@ =~= old(profiles)@[i as int].1.name@ + "-copy"@ + decimal(
            n as nat,
        ));
    }
    Some(key)
}

proof fn lemma_without_key_keeps_unique(ps: Seq<(String, Profile)>, id: Seq<char>)
    ensures
        forall|k: Seq<char>| #[trigger] profile_keys(without_key(ps, id)).contains(k)
            ==> profile_keys(ps).contains(k) && k != id,
        keys_unique(ps) ==> keys_unique(without_key(ps, id)),
    decreases ps.len(),
{
    if ps.len() > 0 {
        let init = ps.drop_last();
        lemma_without_key_keeps_unique(init, id);
        let w = without_key(init, id);
        let tail: Seq<(String, Profile)> = if ps.last().0@ == id {
            Seq::empty()
        } else {
            seq![ps.last()]
        };
        assert(without_key(ps, id) == w + tail);
        assert(profile_keys(ps) =~= profile_keys(init).push(ps.last().0@));
        assert(profile_keys(w + tail) =~= profile_keys(w) + profile_keys(tail));
        assert forall|k: Seq<char>| #[trigger] profile_keys(without_key(ps, id)).contains(k)
            implies profile_keys(ps).contains(k) && k != id by {
            let j = choose|j: int| 0 <= j < profile_keys(w + tail).len() && profile_keys(w + tail)[j] == k;
            if j < w.len() {
                assert(profile_keys(w)[j] == k);
                assert(profile_keys(w).contains(k));
                let i = choose|i: int| 0 <= i < profile_keys(init).len() && profile_keys(init)[i] == k;
                assert(profile_keys(ps)[i] == k);
            } else {
                assert(profile_keys(ps)[ps.len() - 1] == k);
            }
        }
        if keys_unique(ps) {
            assert(keys_unique(init)) by {
                assert forall|a: int, b: int| 0 <= a < profile_keys(init).len() && 0 <= b < profile_keys(init).len() && a != b
                    implies profile_keys(init)[a] != profile_keys(init)[b] by {
                    assert(profile_keys(ps)[a] == profile_keys(init)[a]);
                    assert(profile_keys(ps)[b] == profile_keys(init)[b]);
                }
            }
            if tail.len() > 0 {
                assert(!profile_keys(w).contains(ps.last().0@)) by {
                    if profile_keys(w).contains(ps.last().0@) {
                        let i = choose|i: int| 0 <= i < profile_keys(init).len() && profile_keys(init)[i] == ps.last().0@;
                        assert(profile_keys(ps)[i] == profile_keys(ps)[ps.len() - 1]);
                    }
                }
                assert(profile_keys(w + tail) =~= profile_keys(w).push(ps.last().0@));
            } else {
                assert(profile_keys(w + tail) =~= profile_keys(w));
            }
        }
    }
}

fn keep_except(profiles: &Vec<(String, Profile)>, id: &str) -> (r: Vec<(String, Profile)>)
    ensures
        r@ == without_key(profiles@, id@),
{
    let mut out: Vec<(String, Profile)> = Vec::new();
    let mut i: usize = 0;
    while i < profiles.len()
        invariant
            i <= profiles.len(),
            out@ == without_key(profiles@.take(i as int), id@),
        decreases profiles.len() - i,
    {
        let ghost before = out@;
        proof {
            assert(profiles@.take(i + 1).drop_last() =~= profiles@.take(i as int));
            assert(profiles@.take(i + 1).last() == profiles@[i as int]);
        }
        if !str_eq(profiles[i].0.as_str(), id) {
            out.push((profiles[i].0.clone(), profiles[i].1.duplicate()));
            assert(out@ =~= before + seq![profiles@[i as int]]);
        } else {
            assert(out@ =~= before + Seq::<(String, Profile)>::empty());
        }
        i = i + 1;
    }
    assert(profiles@.take(profiles.len() as int) =~= profiles@);
    out
}

/// Deletes the profile stored under `id`. Built-in profiles are protected:
/// `true`, with every entry under `id` removed, exactly when `id` is a key
/// that is not a built-in id; otherwise nothing changes.
pub fn remove_profile(profiles: &mut Vec<(String, Profile)>, id: &str) -> (removed: bool)
    ensures
        removed == (profile_keys(old(profiles)@).contains(id@) && !builtin_ids().contains(id@)),
        removed ==> final(profiles)@ == without_key(old(profiles)@, id@),
        !removed ==> final(profiles)@ == old(profiles)@,
        keys_unique(old(profiles)@) ==> keys_unique(final(profiles)@),
{
    if is_builtin(id) {
        return false;
    }
    if !has_key(profiles, id) {
        return false;
    }
    let kept = keep_except(profiles, id);
    proof {
        lemma_without_key_keeps_unique(profiles@, id@);
    }
    *profiles = kept;
    true
}

/// An imported configuration must carry profiles: the refusal for one
/// that has none, `None` when the list is usable.
pub fn import_refusal(profiles: &Vec<(String, Profile)>) -> (r: Option<String>)
    ensures
        r is Some <==> profiles.len() == 0,
        r matches Some(m) ==> m@ == "profiles field missing"@,
{
    if profiles.len() == 0 {
        Some(String::from_str("profiles field missing"))
    } else {
        None
    }
}

/// The settings of a configuration besides its profiles and capture
/// sources.
pub struct Settings {
    pub active_profile: String,
    pub encoder_override: String,
    pub ingest_url: String,
    pub last_stream_key: String,
    pub locale: String,
}

impl Settings {
    /// What a fresh configuration starts with: the `mid` profile, the
    /// automatic encoder, TopazChat's ingest, no stream key, Japanese.
    pub fn defaults() -> (r: Settings)
        ensures
            r.active_profile@ == "mid"@,
            r.encoder_override@ == "auto"@,
            r.ingest_url@ == "rtmp://topaz.chat/live"@,
            r.last_stream_key@ == Seq::<char>::empty(),
            r.locale@ == "ja"@,
    {
        Settings {
            active_profile: String::from_str("mid"),
            encoder_override: String::from_str("auto"),
            ingest_url: String::from_str("rtmp://topaz.chat/live"),
            last_stream_key: String::new(),
            locale: String::from_str("ja"),
        }
    }
}

} // verus!
