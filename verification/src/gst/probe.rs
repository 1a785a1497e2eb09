//! Encoder discovery from the GStreamer registry contents.
//!
//! Discovery is a registry lookup with no child processes. The functions
//! here map the set of element factories present (or a presence
//! predicate) to the UI encoder list and the automatic choice.

use vstd::prelude::*;
use crate::gst::pipeline::{
    auto_candidate, auto_pick, auto_pick_from, encoder_element_strs, encoder_elements,
    encoder_from_id, encoder_id, has_name, is_auto, resolved, EncoderSpec,
};
use crate::text::str_eq;

verus! {

/// Auto-select priority: NVENC > QSV > AMF > VAAPI > x264.
/// `h264_vulkan` stays manual-only.
pub const AUTO_CANDIDATES: [&'static str; 4] = ["h264_nvenc", "h264_qsv", "h264_amf", "h264_vaapi"];

/// Manual-select list shown in the UI (vulkan included).
pub const MANUAL_ENCODERS: [&'static str; 7] = [
    "auto",
    "libx264",
    "h264_nvenc",
    "h264_qsv",
    "h264_amf",
    "h264_vaapi",
    "h264_vulkan",
];

/// Usability of one UI encoder id.
#[derive(Debug, Clone, PartialEq)]
pub struct EncoderInfo {
    pub name: String,
    pub usable: bool,
    pub reason: Option<String>,
}

impl EncoderInfo {
    /// A field-by-field copy.
    pub fn duplicate(&self) -> (r: EncoderInfo)
        ensures
            r == *self,
    {
        EncoderInfo {
            name: self.name.clone(),
            usable: self.usable,
            reason: match &self.reason {
                Some(m) => Some(m.clone()),
                None => None,
            },
        }
    }
}

/// An encoder info as plain values.
pub open spec fn info_view(i: EncoderInfo) -> (Seq<char>, bool, Option<Seq<char>>) {
    (
        i.name@,
        i.usable,
        match i.reason {
            Some(r) => Some(r@),
            None => None,
        },
    )
}

/// A list of encoder infos as plain values.
pub open spec fn infos_view(v: Seq<EncoderInfo>) -> Seq<(Seq<char>, bool, Option<Seq<char>>)> {
    v.map_values(|i: EncoderInfo| info_view(i))
}

/// The hardware ids the probe reports, in UI order.
pub open spec fn probed_id(k: int) -> Seq<char> {
    if k == 0 {
        "h264_nvenc"@
    } else if k == 1 {
        "h264_qsv"@
    } else if k == 2 {
        "h264_amf"@
    } else if k == 3 {
        "h264_vaapi"@
    } else {
        "h264_vulkan"@
    }
}

/// The encoder behind the `k`-th probed id.
pub open spec fn probed_spec(k: int) -> EncoderSpec {
    if k == 0 {
        EncoderSpec::Nvenc
    } else if k == 1 {
        EncoderSpec::Qsv
    } else if k == 2 {
        EncoderSpec::Amf
    } else if k == 3 {
        EncoderSpec::Vaapi
    } else {
        EncoderSpec::Vulkan
    }
}

/// Some candidate element of `s` is among `names`.
pub open spec fn any_present(s: EncoderSpec, names: Seq<Seq<char>>) -> bool {
    exists|j: int| 0 <= j < encoder_elements(s).len() && has_name(names, encoder_elements(s)[j])
}

/// The reason given for an encoder whose plugin is absent.
pub open spec fn missing_reason() -> Seq<char> {
    "GStreamer plugin not installed"@
}

/// The probe result for the element factories `names`: the five hardware
/// ids in UI order, each usable iff one of its elements is present (else
/// with [`missing_reason`]), then `libx264`, always usable.
pub open spec fn probe_spec(names: Seq<Seq<char>>) -> Seq<(Seq<char>, bool, Option<Seq<char>>)> {
    Seq::new(
        5,
        |k: int|
            {
                let u = any_present(probed_spec(k), names);
                (probed_id(k), u, if u {
                    None
                } else {
                    Some(missing_reason())
                })
            },
    ).push(("libx264"@, true, None))
}

fn probe_id_str(k: usize) -> (r: &'static str)
    requires
        k < 5,
    ensures
        r@ == probed_id(k as int),
        encoder_from_id(r@) == Some(probed_spec(k as int)),
{
    proof {
        reveal_strlit("h264_nvenc");
        reveal_strlit("h264_qsv");
        reveal_strlit("h264_amf");
        reveal_strlit("h264_vaapi");
        reveal_strlit("h264_vulkan");
    }
    proof {
        crate::gst::pipeline::lemma_id_roundtrip(probed_spec(k as int));
    }
    if k == 0 {
        "h264_nvenc"
    } else if k == 1 {
        "h264_qsv"
    } else if k == 2 {
        "h264_amf"
    } else if k == 3 {
        "h264_vaapi"
    } else {
        "h264_vulkan"
    }
}

fn contains_str(names: &[&str], e: &str) -> (r: bool)
    ensures
        r == has_name(names@.map_values(|n: &str| n@), e@),
{
    let ghost nv = names@.map_values(|n: &str| n@);
    let mut i: usize = 0;
    while i < names.len()
        invariant
            nv == names@.map_values(|n: &str| n@),
            i <= names@.len(),
            forall|k: int| 0 <= k < i ==> nv[k] != e@,
        decreases names@.len() - i,
    {
        if str_eq(names[i], e) {
            assert(nv[i as int] == e@);
            return true;
        }
        i = i + 1;
    }
    false
}

fn missing_info(id: &str) -> (r: EncoderInfo)
    ensures
        info_view(r) == (id@, false, Some(missing_reason())),
{
    EncoderInfo {
        name: String::from_str(id),
        usable: false,
        reason: Some(String::from_str("GStreamer plugin not installed")),
    }
}

fn usable_info(id: &str) -> (r: EncoderInfo)
    ensures
        info_view(r) == (id@, true, None::<Seq<char>>),
{
    EncoderInfo { name: String::from_str(id), usable: true, reason: None }
}

/// Maps the element factories present in the registry to the UI encoder
/// list (five hardware ids, then `libx264`, which is always usable).
pub fn probe_with_elements(element_names: &[&str]) -> (r: Vec<EncoderInfo>)
    ensures
        infos_view(r@) == probe_spec(element_names@.map_values(|n: &str| n@)),
{
    let ghost names = element_names@.map_values(|n: &str| n@);
    let mut out: Vec<EncoderInfo> = Vec::new();
    let mut k: usize = 0;
    while k < 5
        invariant
            k <= 5,
            names == element_names@.map_values(|n: &str| n@),
            infos_view(out@) == probe_spec(names).take(k as int),
        decreases 5 - k,
    {
        let id = probe_id_str(k);
        let spec = match EncoderSpec::from_id(id) {
            Some(s) => s,
            None => {
                assert(false);
                EncoderSpec::X264
            },
        };
        let elems = spec.gst_elements();
        let mut present = false;
        let mut j: usize = 0;
        while j < elems.len()
            invariant
                j <= elems.len(),
                names == element_names@.map_values(|n: &str| n@),
                elems@.map_values(|e: &str| e@) == encoder_elements(spec),
                present == exists|i: int| 0 <= i < j && has_name(names, encoder_elements(spec)[i]),
            decreases elems.len() - j,
        {
            assert(elems@.map_values(|e: &str| e@)[j as int] == elems@[j as int]@);
            if contains_str(element_names, elems[j]) {
                present = true;
            }
            j = j + 1;
        }
        assert(elems@.map_values(|e: &str| e@).len() == elems@.len());
        assert(present == any_present(probed_spec(k as int), names));
        let ghost before = out@;
        if present {
            out.push(usable_info(id));
        } else {
            out.push(missing_info(id));
        }
        proof {
            assert(infos_view(out@) =~= infos_view(before).push(info_view(out@.last())));
            assert(probe_spec(names).take(k + 1) =~= probe_spec(names).take(k as int).push(
                probe_spec(names)[k as int],
            ));
        }
        k = k + 1;
    }
    let ghost before = out@;
    out.push(usable_info("libx264"));
    proof {
        assert(infos_view(out@) =~= infos_view(before).push(info_view(out@.last())));
        assert(probe_spec(names).take(5).push(("libx264"@, true, None)) =~= probe_spec(names));
    }
    out
}

/// The encoder behind `MANUAL_ENCODERS[i]` for `1 <= i < 7`.
pub open spec fn manual_spec(i: int) -> EncoderSpec {
    if i == 1 {
        EncoderSpec::X264
    } else if i == 2 {
        EncoderSpec::Nvenc
    } else if i == 3 {
        EncoderSpec::Qsv
    } else if i == 4 {
        EncoderSpec::Amf
    } else if i == 5 {
        EncoderSpec::Vaapi
    } else {
        EncoderSpec::Vulkan
    }
}

/// The elements [`probe_with`] asks about for the manual ids `1..n`, in
/// the order it asks.
pub open spec fn checked_upto(n: int) -> Seq<&'static str>
    decreases n,
{
    if n <= 1 {
        Seq::empty()
    } else {
        checked_upto(n - 1) + encoder_element_strs(manual_spec(n - 1))
    }
}

/// The elements among `strs` whose answer in `flags` was true, in order.
pub open spec fn selected(strs: Seq<&'static str>, flags: Seq<bool>) -> Seq<Seq<char>>
    decreases flags.len(),
{
    if flags.len() == 0 {
        Seq::empty()
    } else {
        selected(strs, flags.drop_last()) + if flags.last() {
            seq![strs[flags.len() - 1]@]
        } else {
            Seq::empty()
        }
    }
}

proof fn lemma_manual_encoders()
    ensures
        forall|i: int|
            1 <= i < 7 ==> encoder_from_id((#[trigger] MANUAL_ENCODERS@[i])@) == Some(
                manual_spec(i),
            ),
{
    crate::gst::pipeline::lemma_id_roundtrip(EncoderSpec::X264);
    crate::gst::pipeline::lemma_id_roundtrip(EncoderSpec::Nvenc);
    crate::gst::pipeline::lemma_id_roundtrip(EncoderSpec::Qsv);
    crate::gst::pipeline::lemma_id_roundtrip(EncoderSpec::Amf);
    crate::gst::pipeline::lemma_id_roundtrip(EncoderSpec::Vaapi);
    crate::gst::pipeline::lemma_id_roundtrip(EncoderSpec::Vulkan);
}

/// Probes through a presence predicate (the backend passes a registry
/// lookup). The software elements `x264enc`/`openh264enc` are always taken
/// as present, so the `libx264` fallback never disappears; every candidate
/// element of the manual ids is asked once, in [`checked_upto`] order.
pub fn probe_with(check: impl Fn(&str) -> bool) -> (r: Vec<EncoderInfo>)
    requires
        forall|e: &str| check.requires((e,)),
    ensures
        exists|flags: Seq<bool>|
            {
                &&& flags.len() == checked_upto(7).len()
                &&& forall|k: int|
                    0 <= k < flags.len() ==> check.ensures((checked_upto(7)[k],), #[trigger] flags[k])
                &&& infos_view(r@) == probe_spec(
                    seq!["x264enc"@, "openh264enc"@] + selected(checked_upto(7), flags),
                )
            },
{
    let mut elements: Vec<&str> = Vec::new();
    elements.push("x264enc");
    elements.push("openh264enc");
    let ghost base = seq!["x264enc"@, "openh264enc"@];
    let ghost mut flags: Seq<bool> = Seq::empty();
    assert(elements@.map_values(|n: &str| n@) =~= base + selected(checked_upto(1), flags));
    proof {
        lemma_manual_encoders();
    }
    let mut i: usize = 1;
    while i < 7
        invariant
            1 <= i <= 7,
            forall|e: &str| check.requires((e,)),
            forall|q: int|
                1 <= q < 7 ==> encoder_from_id((#[trigger] MANUAL_ENCODERS@[q])@) == Some(
                    manual_spec(q),
                ),
            flags.len() == checked_upto(i as int).len(),
            forall|k: int|
                0 <= k < flags.len() ==> check.ensures(
                    (checked_upto(i as int)[k],),
                    #[trigger] flags[k],
                ),
            elements@.map_values(|n: &str| n@) == base + selected(checked_upto(i as int), flags),
        decreases 7 - i,
    {
        let spec = match EncoderSpec::from_id(MANUAL_ENCODERS[i]) {
            Some(s) => s,
            None => {
                assert(false);
                EncoderSpec::X264
            },
        };
        assert(spec == manual_spec(i as int));
        let elems = spec.gst_elements();
        let ghost prev = checked_upto(i as int);
        let ghost next = checked_upto(i + 1);
        assert(next == prev + elems@);
        proof {
            lemma_selected_extend(prev, elems@, flags);
        }
        let mut j: usize = 0;
        while j < elems.len()
            invariant
                j <= elems.len(),
                forall|e: &str| check.requires((e,)),
                next == prev + elems@,
                flags.len() == prev.len() + j,
                forall|k: int| 0 <= k < flags.len() ==> check.ensures((next[k],), #[trigger] flags[k]),
                elements@.map_values(|n: &str| n@) == base + selected(next, flags),
            decreases elems.len() - j,
        {
            let e = elems[j];
            let b = check(e);
            let ghost old_flags = flags;
            let ghost old_view = elements@.map_values(|n: &str| n@);
            if b {
                elements.push(e);
            }
            proof {
                flags = flags.push(b);
                assert(next[prev.len() + j] == e);
                assert(flags.drop_last() == old_flags);
                assert(selected(next, old_flags) == selected(next, flags.drop_last()));
                let tail = if b {
                    seq![next[flags.len() - 1]@]
                } else {
                    Seq::<Seq<char>>::empty()
                };
                assert(selected(next, flags) == selected(next, old_flags) + tail);
                if b {
                    assert(elements@.map_values(|n: &str| n@) =~= old_view.push(e@));
                } else {
                    assert(elements@.map_values(|n: &str| n@) == old_view);
                }
                assert(elements@.map_values(|n: &str| n@) =~= base + selected(next, flags));
            }
            j = j + 1;
        }
        assert(elems@.len() == elems.len());
        i = i + 1;
    }
    probe_with_elements(elements.as_slice())
}

proof fn lemma_selected_extend(prev: Seq<&'static str>, ext: Seq<&'static str>, flags: Seq<bool>)
    requires
        flags.len() <= prev.len(),
    ensures
        selected(prev + ext, flags) == selected(prev, flags),
    decreases flags.len(),
{
    if flags.len() > 0 {
        lemma_selected_extend(prev, ext, flags.drop_last());
        assert((prev + ext)[flags.len() - 1] == prev[flags.len() - 1]);
    }
}

/// The names of the usable entries, in order.
pub open spec fn usable_names(v: Seq<EncoderInfo>) -> Seq<Seq<char>>
    decreases v.len(),
{
    if v.len() == 0 {
        Seq::empty()
    } else {
        usable_names(v.drop_last()) + if v.last().usable {
            seq![v.last().name@]
        } else {
            Seq::empty()
        }
    }
}

/// The names satisfying `p`, in order.
pub open spec fn keep(ns: Seq<Seq<char>>, p: spec_fn(Seq<char>) -> bool) -> Seq<Seq<char>>
    decreases ns.len(),
{
    if ns.len() == 0 {
        Seq::empty()
    } else {
        keep(ns.drop_last(), p) + if p(ns.last()) {
            seq![ns.last()]
        } else {
            Seq::empty()
        }
    }
}

/// True for the four auto-selection candidates.
pub open spec fn is_auto_candidate(n: Seq<char>) -> bool {
    n == auto_candidate(0) || n == auto_candidate(1) || n == auto_candidate(2) || n
        == auto_candidate(3)
}

/// Ordering group `g`: the `g`-th auto candidate for `g < 4`, every other
/// id for `g == 4`.
pub open spec fn group(g: int) -> spec_fn(Seq<char>) -> bool {
    if g < 4 {
        |n: Seq<char>| n == auto_candidate(g)
    } else {
        |n: Seq<char>| !is_auto_candidate(n)
    }
}

/// `ns` ordered by auto-selection priority (stable): the candidates in
/// priority order, then every other id in its original order.
pub open spec fn priority_order(ns: Seq<Seq<char>>) -> Seq<Seq<char>> {
    keep(ns, group(0)) + keep(ns, group(1)) + keep(ns, group(2)) + keep(ns, group(3)) + keep(
        ns,
        group(4),
    )
}

fn in_group(n: &String, g: usize) -> (r: bool)
    requires
        g <= 4,
    ensures
        r == group(g as int)(n@),
{
    proof {
        lemma_auto_candidates_view();
    }
    if g < 4 {
        str_eq(n.as_str(), AUTO_CANDIDATES[g])
    } else {
        !(str_eq(n.as_str(), AUTO_CANDIDATES[0]) || str_eq(n.as_str(), AUTO_CANDIDATES[1]) || str_eq(
            n.as_str(),
            AUTO_CANDIDATES[2],
        ) || str_eq(n.as_str(), AUTO_CANDIDATES[3]))
    }
}

proof fn lemma_auto_candidates_view()
    ensures
        forall|k: int| 0 <= k < 4 ==> (#[trigger] AUTO_CANDIDATES@[k])@ == auto_candidate(k),
{
}

fn append_group(out: &mut Vec<String>, u: &Vec<String>, g: usize)
    requires
        g <= 4,
    ensures
        crate::gst::pipeline::names_view(final(out)@) == crate::gst::pipeline::names_view(old(out)@)
            + keep(crate::gst::pipeline::names_view(u@), group(g as int)),
{
    let ghost start = crate::gst::pipeline::names_view(out@);
    let ghost uv = crate::gst::pipeline::names_view(u@);
    let mut j: usize = 0;
    while j < u.len()
        invariant
            g <= 4,
            j <= u.len(),
            uv == crate::gst::pipeline::names_view(u@),
            crate::gst::pipeline::names_view(out@) == start + keep(uv.take(j as int), group(g as int)),
        decreases u.len() - j,
    {
        let ghost before = crate::gst::pipeline::names_view(out@);
        let hit = in_group(&u[j], g);
        if hit {
            out.push(u[j].clone());
        }
        proof {
            assert(uv.take(j + 1).drop_last() =~= uv.take(j as int));
            assert(uv.take(j + 1).last() == u@[j as int]@);
            if hit {
                assert(crate::gst::pipeline::names_view(out@) =~= before.push(u@[j as int]@));
            } else {
                assert(crate::gst::pipeline::names_view(out@) =~= before);
            }
            assert(crate::gst::pipeline::names_view(out@) =~= start + keep(
                uv.take(j + 1),
                group(g as int),
            ));
        }
        j = j + 1;
    }
    assert(uv.take(u.len() as int) =~= uv);
}

/// The usable ids, auto-selection candidates first in priority order,
/// then the rest in their original order.
pub fn usable_ids(infos: &[EncoderInfo]) -> (r: Vec<String>)
    ensures
        crate::gst::pipeline::names_view(r@) == priority_order(usable_names(infos@)),
{
    let mut u: Vec<String> = Vec::new();
    let mut i: usize = 0;
    while i < infos.len()
        invariant
            i <= infos@.len(),
            crate::gst::pipeline::names_view(u@) == usable_names(infos@.take(i as int)),
        decreases infos@.len() - i,
    {
        let ghost before = crate::gst::pipeline::names_view(u@);
        if infos[i].usable {
            u.push(infos[i].name.clone());
        }
        proof {
            assert(infos@.take(i + 1).drop_last() =~= infos@.take(i as int));
            if infos@[i as int].usable {
                assert(crate::gst::pipeline::names_view(u@) =~= before.push(infos@[i as int].name@));
            } else {
                assert(crate::gst::pipeline::names_view(u@) =~= before);
            }
        }
        i = i + 1;
    }
    assert(infos@.take(infos@.len() as int) =~= infos@);
    let mut out: Vec<String> = Vec::new();
    let mut g: usize = 0;
    while g < 5
        invariant
            g <= 5,
            crate::gst::pipeline::names_view(u@) == usable_names(infos@),
            crate::gst::pipeline::names_view(out@) == (if g == 0 {
                Seq::empty()
            } else if g == 1 {
                keep(usable_names(infos@), group(0))
            } else if g == 2 {
                keep(usable_names(infos@), group(0)) + keep(usable_names(infos@), group(1))
            } else if g == 3 {
                keep(usable_names(infos@), group(0)) + keep(usable_names(infos@), group(1)) + keep(
                    usable_names(infos@),
                    group(2),
                )
            } else if g == 4 {
                keep(usable_names(infos@), group(0)) + keep(usable_names(infos@), group(1)) + keep(
                    usable_names(infos@),
                    group(2),
                ) + keep(usable_names(infos@), group(3))
            } else {
                priority_order(usable_names(infos@))
            }),
        decreases 5 - g,
    {
        append_group(&mut out, &u, g);
        proof {
            if g == 0 {
                assert(Seq::<Seq<char>>::empty() + keep(usable_names(infos@), group(0)) =~= keep(
                    usable_names(infos@),
                    group(0),
                ));
            }
        }
        g = g + 1;
    }
    out
}

/// The automatic choice among `v` from candidate `k` on: the first
/// candidate with a usable entry, else `libx264`.
pub open spec fn best_from(v: Seq<EncoderInfo>, k: int) -> Seq<char>
    decreases 4 - k,
{
    if k >= 4 || k < 0 {
        "libx264"@
    } else if exists|i: int| 0 <= i < v.len() && v[i].name@ == auto_candidate(k) && v[i].usable {
        auto_candidate(k)
    } else {
        best_from(v, k + 1)
    }
}

/// Best encoder id for `auto`: the first usable candidate in priority
/// order, else the software fallback `libx264`.
pub fn pick_best(infos: &[EncoderInfo]) -> (r: String)
    ensures
        r@ == best_from(infos@, 0),
{
    proof {
        lemma_auto_candidates_view();
    }
    let mut k: usize = 0;
    while k < 4
        invariant
            k <= 4,
            forall|q: int| 0 <= q < 4 ==> (#[trigger] AUTO_CANDIDATES@[q])@ == auto_candidate(q),
            best_from(infos@, 0) == best_from(infos@, k as int),
        decreases 4 - k,
    {
        let cand = AUTO_CANDIDATES[k];
        let mut i: usize = 0;
        while i < infos.len()
            invariant
                k < 4,
                i <= infos@.len(),
                cand@ == auto_candidate(k as int),
                best_from(infos@, 0) == best_from(infos@, k as int),
                forall|q: int|
                    0 <= q < i ==> !(infos@[q].name@ == auto_candidate(k as int) && infos@[q].usable),
            decreases infos@.len() - i,
        {
            if infos[i].usable && str_eq(infos[i].name.as_str(), cand) {
                assert(infos@[i as int].name@ == auto_candidate(k as int) && infos@[i as int].usable);
                return String::from_str(cand);
            }
            i = i + 1;
        }
        k = k + 1;
    }
    String::from_str("libx264")
}

/// Probe result when no GStreamer registry is available: software only.
pub fn probe_encoders() -> (r: Vec<EncoderInfo>)
    ensures
        infos_view(r@) == probe_spec(Seq::empty()),
{
    let none: Vec<&str> = Vec::new();
    let r = probe_with_elements(none.as_slice());
    assert(none@.map_values(|n: &str| n@) =~= Seq::<Seq<char>>::empty());
    r
}

/// True for the ids of the manual-select list.
pub open spec fn is_manual_id(n: Seq<char>) -> bool {
    n == MANUAL_ENCODERS@[0]@ || n == MANUAL_ENCODERS@[1]@ || n == MANUAL_ENCODERS@[2]@ || n
        == MANUAL_ENCODERS@[3]@ || n == MANUAL_ENCODERS@[4]@ || n == MANUAL_ENCODERS@[5]@ || n
        == MANUAL_ENCODERS@[6]@
}

/// UI ordering group `g`: the `g`-th manual id for `g < 7`, every id
/// outside the manual list for `g == 7`.
pub open spec fn ui_group(g: int) -> spec_fn(Seq<char>) -> bool {
    if g < 7 {
        |n: Seq<char>| n == MANUAL_ENCODERS@[g]@
    } else {
        |n: Seq<char>| !is_manual_id(n)
    }
}

/// The infos whose name satisfies `p`, in order.
pub open spec fn keep_infos(v: Seq<EncoderInfo>, p: spec_fn(Seq<char>) -> bool) -> Seq<EncoderInfo>
    decreases v.len(),
{
    if v.len() == 0 {
        Seq::empty()
    } else {
        keep_infos(v.drop_last(), p) + if p(v.last().name@) {
            seq![v.last()]
        } else {
            Seq::empty()
        }
    }
}

/// Groups `0..g` of `v`, one after the other.
pub open spec fn ui_groups(v: Seq<EncoderInfo>, g: int) -> Seq<EncoderInfo>
    decreases g,
{
    if g <= 0 {
        Seq::empty()
    } else {
        ui_groups(v, g - 1) + keep_infos(v, ui_group(g - 1))
    }
}

/// `v` in manual-list order (a stable sort by the position of each name
/// in [`MANUAL_ENCODERS`], names outside the list last).
pub open spec fn ui_order(v: Seq<EncoderInfo>) -> Seq<EncoderInfo> {
    ui_groups(v, 8)
}

fn in_ui_group(n: &String, g: usize) -> (r: bool)
    requires
        g <= 7,
    ensures
        r == ui_group(g as int)(n@),
{
    if g < 7 {
        str_eq(n.as_str(), MANUAL_ENCODERS[g])
    } else {
        let mut k: usize = 0;
        while k < 7
            invariant
                k <= 7,
                g == 7,
                forall|q: int| 0 <= q < k ==> n@ != (#[trigger] MANUAL_ENCODERS@[q])@,
            decreases 7 - k,
        {
            if str_eq(n.as_str(), MANUAL_ENCODERS[k]) {
                assert(n@ == MANUAL_ENCODERS@[k as int]@);
                assert(k == 0 || k == 1 || k == 2 || k == 3 || k == 4 || k == 5 || k == 6);
                return false;
            }
            k = k + 1;
        }
        true
    }
}

/// Encoder infos in the order of the manual-select list (the UI order):
/// a stable sort by each name's position in [`MANUAL_ENCODERS`], names
/// outside the list last.
pub fn order_for_ui(infos: &[EncoderInfo]) -> (r: Vec<EncoderInfo>)
    ensures
        r@ == ui_order(infos@),
{
    let mut out: Vec<EncoderInfo> = Vec::new();
    let mut g: usize = 0;
    while g < 8
        invariant
            g <= 8,
            out@ == ui_groups(infos@, g as int),
        decreases 8 - g,
    {
        let ghost start = out@;
        let mut j: usize = 0;
        while j < infos.len()
            invariant
                g < 8,
                j <= infos@.len(),
                out@ == start + keep_infos(infos@.take(j as int), ui_group(g as int)),
            decreases infos@.len() - j,
        {
            let ghost before = out@;
            let hit = in_ui_group(&infos[j].name, g);
            if hit {
                out.push(infos[j].duplicate());
            }
            proof {
                assert(infos@.take(j + 1).drop_last() =~= infos@.take(j as int));
                assert(infos@.take(j + 1).last() == infos@[j as int]);
                if hit {
                    assert(out@ =~= before.push(infos@[j as int]));
                } else {
                    assert(out@ =~= before);
                }
                assert(out@ =~= start + keep_infos(infos@.take(j + 1), ui_group(g as int)));
            }
            j = j + 1;
        }
        assert(infos@.take(infos@.len() as int) =~= infos@);
        g = g + 1;
    }
    out
}

/// Encoder list when the GStreamer runtime cannot be initialized: the
/// software encoder, reported unusable.
pub fn runtime_missing_infos() -> (r: Vec<EncoderInfo>)
    ensures
        infos_view(r@) == seq![("libx264"@, false, Some("GStreamer runtime not found"@))],
{
    let mut v: Vec<EncoderInfo> = Vec::new();
    v.push(
        EncoderInfo {
            name: String::from_str("libx264"),
            usable: false,
            reason: Some(String::from_str("GStreamer runtime not found")),
        },
    );
    assert(infos_view(v@) =~= seq![info_view(v@[0])]);
    v
}

proof fn lemma_usable_names_has(v: Seq<EncoderInfo>, c: Seq<char>)
    ensures
        has_name(usable_names(v), c) <==> exists|i: int|
            0 <= i < v.len() && v[i].name@ == c && v[i].usable,
    decreases v.len(),
{
    if v.len() > 0 {
        let d = v.drop_last();
        lemma_usable_names_has(d, c);
        let u = usable_names(d);
        let all = usable_names(v);
        if has_name(all, c) {
            let j = choose|j: int| 0 <= j < all.len() && all[j] == c;
            if j < u.len() {
                assert(all[j] == u[j]);
                assert(has_name(u, c));
                let i = choose|i: int| 0 <= i < d.len() && d[i].name@ == c && d[i].usable;
                assert(v[i] == d[i]);
            } else {
                assert(v.last().usable && v.last().name@ == c);
                assert(v[v.len() - 1] == v.last());
            }
        }
        if exists|i: int| 0 <= i < v.len() && v[i].name@ == c && v[i].usable {
            let i = choose|i: int| 0 <= i < v.len() && v[i].name@ == c && v[i].usable;
            if i < v.len() - 1 {
                assert(d[i] == v[i]);
                let j = choose|j: int| 0 <= j < u.len() && u[j] == c;
                assert(all[j] == u[j]);
            } else {
                assert(all[u.len() as int] == c);
            }
        }
    }
}

proof fn lemma_best_matches_auto(v: Seq<EncoderInfo>, k: int)
    requires
        0 <= k <= 4,
    ensures
        best_from(v, k) == encoder_id(auto_pick_from(usable_names(v), k)),
    decreases 4 - k,
{
    crate::gst::pipeline::lemma_id_roundtrip(EncoderSpec::Nvenc);
    crate::gst::pipeline::lemma_id_roundtrip(EncoderSpec::Qsv);
    crate::gst::pipeline::lemma_id_roundtrip(EncoderSpec::Amf);
    crate::gst::pipeline::lemma_id_roundtrip(EncoderSpec::Vaapi);
    if k < 4 {
        lemma_usable_names_has(v, auto_candidate(k));
        lemma_best_matches_auto(v, k + 1);
    }
}

/// The id `pick_best` shows for "auto" names the encoder that automatic
/// resolution picks among the usable encoders of the same probe.
pub proof fn pick_best_matches_auto_resolution(infos: Seq<EncoderInfo>)
    ensures
        encoder_from_id(best_from(infos, 0)) == Some(auto_pick(usable_names(infos))),
{
    lemma_best_matches_auto(infos, 0);
    crate::gst::pipeline::lemma_id_roundtrip(auto_pick(usable_names(infos)));
}

proof fn lemma_keep_has(ns: Seq<Seq<char>>, p: spec_fn(Seq<char>) -> bool, c: Seq<char>)
    ensures
        has_name(keep(ns, p), c) <==> has_name(ns, c) && p(c),
    decreases ns.len(),
{
    if ns.len() > 0 {
        let d = ns.drop_last();
        lemma_keep_has(d, p, c);
        let k = keep(d, p);
        let all = keep(ns, p);
        if has_name(all, c) {
            let j = choose|j: int| 0 <= j < all.len() && all[j] == c;
            if j < k.len() {
                assert(all[j] == k[j]);
                let i = choose|i: int| 0 <= i < d.len() && d[i] == c;
                assert(ns[i] == d[i]);
            } else {
                assert(ns[ns.len() - 1] == c);
            }
        }
        if has_name(ns, c) && p(c) {
            let i = choose|i: int| 0 <= i < ns.len() && ns[i] == c;
            if i < ns.len() - 1 {
                assert(d[i] == ns[i]);
                let j = choose|j: int| 0 <= j < k.len() && k[j] == c;
                assert(all[j] == k[j]);
            } else {
                assert(all[k.len() as int] == c);
            }
        }
    }
}

proof fn lemma_concat_has(a: Seq<Seq<char>>, b: Seq<Seq<char>>, c: Seq<char>)
    ensures
        has_name(a + b, c) <==> has_name(a, c) || has_name(b, c),
{
    if has_name(a + b, c) {
        let j = choose|j: int| 0 <= j < (a + b).len() && (a + b)[j] == c;
        if j >= a.len() {
            assert(b[j - a.len()] == c);
        }
    }
    if has_name(a, c) {
        let j = choose|j: int| 0 <= j < a.len() && a[j] == c;
        assert((a + b)[j] == c);
    }
    if has_name(b, c) {
        let j = choose|j: int| 0 <= j < b.len() && b[j] == c;
        assert((a + b)[a.len() + j] == c);
    }
}

proof fn lemma_candidates_distinct()
    ensures
        forall|j: int, k: int|
            0 <= j < 4 && 0 <= k < 4 && j != k ==> auto_candidate(j) != auto_candidate(k),
        forall|k: int| 0 <= k < 4 ==> is_auto_candidate(#[trigger] auto_candidate(k)),
{
    crate::gst::pipeline::lemma_id_roundtrip(EncoderSpec::Nvenc);
    crate::gst::pipeline::lemma_id_roundtrip(EncoderSpec::Qsv);
    crate::gst::pipeline::lemma_id_roundtrip(EncoderSpec::Amf);
    crate::gst::pipeline::lemma_id_roundtrip(EncoderSpec::Vaapi);
}

/// Ordering by priority keeps which candidates are present.
proof fn lemma_priority_order_has(ns: Seq<Seq<char>>, k: int)
    requires
        0 <= k < 4,
    ensures
        has_name(priority_order(ns), auto_candidate(k)) <==> has_name(ns, auto_candidate(k)),
{
    let c = auto_candidate(k);
    lemma_candidates_distinct();
    let g0 = keep(ns, group(0));
    let g1 = keep(ns, group(1));
    let g2 = keep(ns, group(2));
    let g3 = keep(ns, group(3));
    let g4 = keep(ns, group(4));
    lemma_keep_has(ns, group(0), c);
    lemma_keep_has(ns, group(1), c);
    lemma_keep_has(ns, group(2), c);
    lemma_keep_has(ns, group(3), c);
    lemma_keep_has(ns, group(4), c);
    lemma_concat_has(g0, g1, c);
    lemma_concat_has(g0 + g1, g2, c);
    lemma_concat_has(g0 + g1 + g2, g3, c);
    lemma_concat_has(g0 + g1 + g2 + g3, g4, c);
    assert(group(k)(c));
    assert(!group(4)(c));
}

proof fn lemma_auto_pick_same(a: Seq<Seq<char>>, b: Seq<Seq<char>>, k: int)
    requires
        0 <= k <= 4,
        forall|j: int| k <= j < 4 ==> (has_name(a, auto_candidate(j)) <==> has_name(
            b,
            #[trigger] auto_candidate(j),
        )),
    ensures
        auto_pick_from(a, k) == auto_pick_from(b, k),
    decreases 4 - k,
{
    if k < 4 {
        assert(has_name(a, auto_candidate(k)) <==> has_name(b, auto_candidate(k)));
        lemma_auto_pick_same(a, b, k + 1);
    }
}

/// The id `pick_best` shows for "auto" names the encoder that resolving
/// "auto" against `usable_ids` of the same probe gives (the priority
/// ordering of the usable ids changes nothing), and "auto" is an
/// automatic override.
pub proof fn pick_best_matches_usable_ids(infos: Seq<EncoderInfo>)
    ensures
        is_auto("auto"@),
        resolved("auto"@, priority_order(usable_names(infos))) == encoder_from_id(
            best_from(infos, 0),
        ),
{
    reveal_strlit("auto");
    let s = "auto"@;
    assert(crate::text::drop_leading(s, |c: char| crate::text::is_ws(c)) == s);
    assert(crate::text::trim(s) == s);
    let ns = usable_names(infos);
    assert forall|j: int| 0 <= j < 4 implies (has_name(priority_order(ns), auto_candidate(j))
        <==> has_name(ns, #[trigger] auto_candidate(j))) by {
        lemma_priority_order_has(ns, j);
    }
    lemma_auto_pick_same(priority_order(ns), ns, 0);
    pick_best_matches_auto_resolution(infos);
}

} // verus!
