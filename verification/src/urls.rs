//! Playback URL and stream key helpers.
//!
//! The RTMP ingest URL maps to the TopazChat playback URLs: `rtspt://` for
//! PC (TCP interleaved RTSP, low latency) and `rtsp://` for Quest.

use vstd::prelude::*;
use crate::text::{
    chars_of, drop_trailing, eq_ascii_case, eq_ignore_ascii_case, lemma_drop_trailing,
    string_of_range,
};

verus! {

/// `s` with a leading `rtmp://` removed, if present.
pub open spec fn strip_rtmp(s: Seq<char>) -> Seq<char> {
    if s.len() >= 7 && s.subrange(0, 7) == "rtmp://"@ {
        s.subrange(7, s.len() as int)
    } else {
        s
    }
}

/// The host/path part shared by both playback URLs.
pub open spec fn playback_base(ingest: Seq<char>) -> Seq<char> {
    drop_trailing(strip_rtmp(ingest), |c: char| c == '/')
}

/// Builds `(pc_url, quest_url)` from an ingest URL and a stream key:
/// `rtspt://<base>/<key>` and `rtsp://<base>/<key>`, where `<base>` is the
/// ingest URL without its `rtmp://` scheme and trailing slashes.
pub fn playback_urls(ingest_url: &str, key: &str) -> (r: (String, String))
    ensures
        r.0@ == "rtspt://"@ + playback_base(ingest_url@) + "/"@ + key@,
        r.1@ == "rtsp://"@ + playback_base(ingest_url@) + "/"@ + key@,
{
    let v = chars_of(ingest_url);
    proof {
        reveal_strlit("rtmp://");
    }
    let mut start: usize = 0;
    if v.len() >= 7 && v[0] == 'r' && v[1] == 't' && v[2] == 'm' && v[3] == 'p' && v[4] == ':'
        && v[5] == '/' && v[6] == '/' {
        assert(v@.subrange(0, 7) =~= "rtmp://"@);
        start = 7;
    } else {
        assert(v@.len() >= 7 ==> v@.subrange(0, 7)[0] == v@[0]);
        assert(v@.len() >= 7 ==> v@.subrange(0, 7) != "rtmp://"@ || (v@[0] == 'r' && v@[1] == 't'
            && v@[2] == 'm' && v@[3] == 'p' && v@[4] == ':' && v@[5] == '/' && v@[6] == '/')) by {
            if v@.len() >= 7 && v@.subrange(0, 7) == "rtmp://"@ {
                assert(v@.subrange(0, 7)[1] == v@[1]);
                assert(v@.subrange(0, 7)[2] == v@[2]);
                assert(v@.subrange(0, 7)[3] == v@[3]);
                assert(v@.subrange(0, 7)[4] == v@[4]);
                assert(v@.subrange(0, 7)[5] == v@[5]);
                assert(v@.subrange(0, 7)[6] == v@[6]);
            }
        }
    }
    let ghost stripped = strip_rtmp(v@);
    assert(stripped =~= v@.subrange(start as int, v@.len() as int));
    let mut end: usize = v.len();
    while end > start && v[end - 1] == '/'
        invariant
            start <= end <= v.len(),
            forall|i: int| end <= i < v.len() ==> v@[i] == '/',
        decreases end,
    {
        end = end - 1;
    }
    proof {
        let slash = |c: char| c == '/';
        assert forall|i: int| end - start <= i < stripped.len() implies slash(
            #[trigger] stripped[i],
        ) by {
            assert(stripped[i] == v@[i + start]);
        }
        if end > start {
            assert(stripped[end - start - 1] == v@[end - 1]);
        }
        lemma_drop_trailing(stripped, slash, end - start);
        assert(stripped.subrange(0, end - start) =~= v@.subrange(start as int, end as int));
    }
    let base = string_of_range(&v, start, end);
    let mut pc = String::from_str("rtspt://");
    pc.append(base.as_str());
    pc.append("/");
    pc.append(key);
    let mut quest = String::from_str("rtsp://");
    quest.append(base.as_str());
    quest.append("/");
    quest.append(key);
    (pc, quest)
}

/// Generic keys risk colliding with other people's streams.
pub const GENERIC_KEYS: [&'static str; 6] = ["test", "music", "live", "stream", "key", "vrchat"];

/// True when `key` is one of the collision-prone generic keys, ignoring
/// ASCII case.
pub open spec fn generic_key(key: Seq<char>) -> bool {
    exists|i: int| 0 <= i < 6 && eq_ascii_case(#[trigger] GENERIC_KEYS@[i]@, key)
}

/// True when the key is one of the known collision-prone generic keys.
pub fn is_generic_key(key: &str) -> (r: bool)
    ensures
        r == generic_key(key@),
{
    let mut i: usize = 0;
    while i < 6
        invariant
            i <= 6,
            forall|k: int| 0 <= k < i ==> !eq_ascii_case(#[trigger] GENERIC_KEYS@[k]@, key@),
        decreases 6 - i,
    {
        if eq_ignore_ascii_case(GENERIC_KEYS[i], key) {
            return true;
        }
        i = i + 1;
    }
    false
}

} // verus!
