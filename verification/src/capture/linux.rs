//! Linux (Portal + PipeWire) capture decisions: screen targets come from
//! the OS picker, so nothing is enumerated; audio selections become one
//! PipeWire capture stream per source.

use vstd::prelude::*;
use crate::audio::MIC_ID;
use crate::capture::{CaptureError, Display, WindowInfo};
use crate::text::{chars_of, str_eq, string_of_range};

verus! {

/// Displays: the Portal picker is the selection surface, so the list is
/// empty.
pub fn list_displays() -> (r: Result<Vec<Display>, CaptureError>)
    ensures
        r matches Ok(v) && v@.len() == 0,
{
    Ok(Vec::new())
}

/// Windows: the Portal picker is the selection path, so the list is empty.
pub fn list_windows() -> (r: Result<Vec<WindowInfo>, CaptureError>)
    ensures
        r matches Ok(v) && v@.len() == 0,
{
    Ok(Vec::new())
}

/// The text after the last `:` of `s`, or all of `s` when it has none
/// (`str::rsplit(':').next()`).
pub open spec fn last_segment(s: Seq<char>) -> Seq<char>
    decreases s.len(),
{
    if s.len() == 0 {
        s
    } else if s.last() == ':' {
        Seq::empty()
    } else {
        last_segment(s.drop_last()).push(s.last())
    }
}

/// A capture stream as plain values: source id, PipeWire target node,
/// and whether it captures the sink monitor.
pub type SourceView = (Seq<char>, Option<Seq<char>>, bool);

/// A capture stream as plain values.
pub open spec fn source_view(t: (String, Option<String>, bool)) -> SourceView {
    (
        t.0@,
        match t.1 {
            Some(n) => Some(n@),
            None => None,
        },
        t.2,
    )
}

/// The capture streams of the selected applications, in selection order:
/// each targets the node after its id's last `:`; ids with no node are
/// skipped.
pub open spec fn app_sources(apps: Seq<Seq<char>>) -> Seq<SourceView>
    decreases apps.len(),
{
    if apps.len() == 0 {
        Seq::empty()
    } else {
        app_sources(apps.drop_last()) + if last_segment(apps.last()).len() == 0 {
            Seq::<SourceView>::empty()
        } else {
            seq![(apps.last(), Some(last_segment(apps.last())), false)]
        }
    }
}

/// The PipeWire node a microphone device id targets: none for the default
/// device, otherwise the text after the id's last `:`.
pub open spec fn mic_target(device: Seq<char>) -> Option<Seq<char>> {
    if device == "default"@ || device.len() == 0 {
        None
    } else {
        Some(last_segment(device))
    }
}

/// The capture streams of an audio selection: the system mix (sink
/// monitor) in "system" mode, the microphone when enabled, and each
/// selected application in "apps" mode.
pub open spec fn audio_sources(
    mode: Seq<char>,
    apps: Seq<Seq<char>>,
    mic_enabled: bool,
    mic_device: Seq<char>,
) -> Seq<SourceView> {
    (if mode == "system"@ {
        seq![("system"@, None::<Seq<char>>, true)]
    } else {
        Seq::empty()
    }) + (if mic_enabled {
        seq![(MIC_ID@, mic_target(mic_device), false)]
    } else {
        Seq::empty()
    }) + (if mode == "apps"@ {
        app_sources(apps)
    } else {
        Seq::empty()
    })
}

/// The character sequences of a list of strings.
pub open spec fn strs_view(v: Seq<String>) -> Seq<Seq<char>> {
    v.map_values(|s: String| s@)
}

/// The capture streams as plain values.
pub open spec fn sources_view(v: Seq<(String, Option<String>, bool)>) -> Seq<SourceView> {
    v.map_values(|t: (String, Option<String>, bool)| source_view(t))
}

proof fn lemma_last_segment_push(s: Seq<char>, c: char)
    ensures
        last_segment(s.push(c)) == (if c == ':' {
            Seq::empty()
        } else {
            last_segment(s).push(c)
        }),
{
    assert(s.push(c).drop_last() =~= s);
}

/// The text after the last `:` of `s`.
pub fn last_segment_of(s: &str) -> (r: String)
    ensures
        r@ == last_segment(s@),
{
    let v = chars_of(s);
    let mut start: usize = 0;
    let mut i: usize = 0;
    while i < v.len()
        invariant
            v@ == s@,
            start <= i <= v.len(),
            v@.subrange(start as int, i as int) == last_segment(v@.subrange(0, i as int)),
        decreases v.len() - i,
    {
        proof {
            lemma_last_segment_push(v@.subrange(0, i as int), v@[i as int]);
            assert(v@.subrange(0, i + 1) =~= v@.subrange(0, i as int).push(v@[i as int]));
        }
        if v[i] == ':' {
            start = i + 1;
            assert(v@.subrange(start as int, i + 1) =~= Seq::<char>::empty());
        } else {
            assert(v@.subrange(start as int, i + 1) =~= v@.subrange(start as int, i as int).push(
                v@[i as int],
            ));
        }
        i = i + 1;
    }
    assert(v@.subrange(0, v.len() as int) =~= v@);
    string_of_range(&v, start, v.len())
}

fn push_source(
    out: &mut Vec<(String, Option<String>, bool)>,
    id: String,
    target: Option<String>,
    monitor: bool,
)
    ensures
        sources_view(final(out)@) == sources_view(old(out)@).push(
            (
                id@,
                match target {
                    Some(n) => Some(n@),
                    None => None,
                },
                monitor,
            ),
        ),
{
    let ghost t = (id, target, monitor);
    out.push((id, target, monitor));
    assert(sources_view(out@) =~= sources_view(old(out)@).push(source_view(t)));
}

/// Per-stream PipeWire properties of an audio selection: (source id,
/// optional target node, capture the sink monitor). Device and
/// application ids are `pw:<node>` or raw node ids; the target is the
/// bare node id.
pub fn audio_source_specs(
    mode: &str,
    apps: &Vec<String>,
    mic_enabled: bool,
    mic_device: &str,
) -> (r: Vec<(String, Option<String>, bool)>)
    ensures
        sources_view(r@) == audio_sources(mode@, strs_view(apps@), mic_enabled, mic_device@),
{
    let mut specs: Vec<(String, Option<String>, bool)> = Vec::new();
    let system = str_eq(mode, "system");
    if system {
        push_source(&mut specs, String::from_str("system"), None, true);
    }
    let ghost first = sources_view(specs@);
    assert(first =~= (if mode@ == "system"@ {
        seq![("system"@, None::<Seq<char>>, true)]
    } else {
        Seq::empty()
    }));
    if mic_enabled {
        let target = if str_eq(mic_device, "default") || mic_device.unicode_len() == 0 {
            None
        } else {
            Some(last_segment_of(mic_device))
        };
        push_source(&mut specs, String::from_str(MIC_ID), target, false);
    }
    let ghost second = sources_view(specs@);
    assert(second =~= first + (if mic_enabled {
        seq![(MIC_ID@, mic_target(mic_device@), false)]
    } else {
        Seq::empty()
    }));
    if str_eq(mode, "apps") {
        let ghost names = strs_view(apps@);
        let mut i: usize = 0;
        while i < apps.len()
            invariant
                i <= apps.len(),
                names == strs_view(apps@),
                sources_view(specs@) == second + app_sources(names.take(i as int)),
            decreases apps.len() - i,
        {
            let ghost before = sources_view(specs@);
            proof {
                assert(names.take(i + 1).drop_last() =~= names.take(i as int));
                assert(names.take(i + 1).last() == apps@[i as int]@);
            }
            let node = last_segment_of(apps[i].as_str());
            if node.unicode_len() != 0 {
                push_source(&mut specs, apps[i].clone(), Some(node), false);
                assert(sources_view(specs@) =~= second + app_sources(names.take(i + 1)));
            } else {
                assert(sources_view(specs@) =~= second + app_sources(names.take(i + 1)));
            }
            i = i + 1;
        }
        assert(names.take(apps.len() as int) =~= names);
    } else {
        assert(sources_view(specs@) =~= second + Seq::empty());
    }
    specs
}

/// The capture streams to open for an audio selection; a selection that
/// yields none is refused with "no audio source selected".
pub fn audio_capture_plan(
    mode: &str,
    apps: &Vec<String>,
    mic_enabled: bool,
    mic_device: &str,
) -> (r: Result<Vec<(String, Option<String>, bool)>, CaptureError>)
    ensures
        audio_sources(mode@, strs_view(apps@), mic_enabled, mic_device@).len() == 0 ==> (r matches Err(
            CaptureError::Failed(m),
        ) && m@ == "no audio source selected"@),
        audio_sources(mode@, strs_view(apps@), mic_enabled, mic_device@).len() > 0 ==> (r matches Ok(
            v,
        ) && sources_view(v@) == audio_sources(mode@, strs_view(apps@), mic_enabled, mic_device@)),
{
    let specs = audio_source_specs(mode, apps, mic_enabled, mic_device);
    if specs.len() == 0 {
        return Err(CaptureError::Failed(String::from_str("no audio source selected")));
    }
    Ok(specs)
}

} // verus!
