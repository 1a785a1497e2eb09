//! GStreamer pipeline plan.
//!
//! The plan is pure data (no GStreamer runtime needed). Topology (all
//! elements in one pipeline):
//!
//! ```text
//! video_src(appsrc BGRA w×h@fps) → videoconvert → videoscale → capsfilter
//!   → queue → videoconvert → [vulkanupload] → <encoder> → h264parse → mux.
//! audio_src(appsrc F32LE 48k stereo, mixer output) → audioconvert →
//!   audioresample → capsfilter → queue → audioconvert → voaacenc → aacparse → mux.
//! mux(flvmux streamable) → rtmp2sink location=rtmp://…/{key}
//! ```
//!
//! The converters after each `queue` adapt the pinned pacer caps
//! (BGRA / F32LE) to the encoder's accepted subset (`vah264enc`: NV12;
//! `faac`/`fdkaacenc`: S16LE). Vulkan (`vulkanh264enc`) additionally needs
//! `vulkanupload` between the tail videoconvert and the encoder, whose sink
//! is `video/x-raw(memory:VulkanImage),format=NV12`.

use vstd::prelude::*;
use crate::config::{bitrate_ok, key_valid, validate_bitrate, validate_stream_key, Profile};
use crate::error::Error;
use crate::text::{
    chars_of, decimal, decimal_string, push_decimal, starts_with, str_eq, string_of_range, trim,
    trim_bounds, trimmed, vec_starts_with,
};

verus! {

/// UI-facing encoder ids. Each maps to one or more GStreamer elements
/// (first available wins at runtime).
#[derive(Debug, Clone, Copy, PartialEq, Eq, Structural)]
pub enum EncoderSpec {
    Nvenc,
    Qsv,
    Amf,
    Vaapi,
    Vulkan,
    X264,
}

/// The UI id of an encoder.
pub open spec fn encoder_id(s: EncoderSpec) -> Seq<char> {
    match s {
        EncoderSpec::Nvenc => "h264_nvenc"@,
        EncoderSpec::Qsv => "h264_qsv"@,
        EncoderSpec::Amf => "h264_amf"@,
        EncoderSpec::Vaapi => "h264_vaapi"@,
        EncoderSpec::Vulkan => "h264_vulkan"@,
        EncoderSpec::X264 => "libx264"@,
    }
}

/// The encoder named by a UI id, if any.
pub open spec fn encoder_from_id(id: Seq<char>) -> Option<EncoderSpec> {
    if id == "h264_nvenc"@ {
        Some(EncoderSpec::Nvenc)
    } else if id == "h264_qsv"@ {
        Some(EncoderSpec::Qsv)
    } else if id == "h264_amf"@ {
        Some(EncoderSpec::Amf)
    } else if id == "h264_vaapi"@ {
        Some(EncoderSpec::Vaapi)
    } else if id == "h264_vulkan"@ {
        Some(EncoderSpec::Vulkan)
    } else if id == "libx264"@ {
        Some(EncoderSpec::X264)
    } else {
        None
    }
}

/// Candidate GStreamer elements of an encoder, best first.
pub open spec fn encoder_elements(s: EncoderSpec) -> Seq<Seq<char>> {
    match s {
        EncoderSpec::Nvenc => seq!["nvh264enc"@, "nvenc_h264enc"@],
        EncoderSpec::Qsv => seq!["qsvh264enc"@],
        EncoderSpec::Amf => seq!["amfh264enc"@],
        EncoderSpec::Vaapi => seq!["vah264enc"@, "vaapih264enc"@],
        EncoderSpec::Vulkan => seq!["vulkanh264enc"@],
        EncoderSpec::X264 => seq!["x264enc"@, "openh264enc"@],
    }
}

/// Every encoder's UI id names that encoder again.
pub proof fn lemma_id_roundtrip(s: EncoderSpec)
    ensures
        encoder_from_id(encoder_id(s)) == Some(s),
{
    reveal_strlit("h264_nvenc");
    reveal_strlit("h264_qsv");
    reveal_strlit("h264_amf");
    reveal_strlit("h264_vaapi");
    reveal_strlit("h264_vulkan");
    reveal_strlit("libx264");
    assert("h264_qsv"@[5] != "h264_nvenc"@[5]);
    assert("h264_amf"@[5] != "h264_nvenc"@[5]);
    assert("h264_amf"@[5] != "h264_qsv"@[5]);
    assert("h264_vaapi"@[5] != "h264_nvenc"@[5]);
    assert("h264_vulkan"@[5] != "h264_nvenc"@[5]);
    assert("h264_vulkan"@[6] != "h264_vaapi"@[6]);
    assert("libx264"@[0] != "h264_nvenc"@[0]);
    assert("libx264"@[0] != "h264_qsv"@[0]);
    assert("libx264"@[0] != "h264_amf"@[0]);
    assert("libx264"@[0] != "h264_vaapi"@[0]);
    assert("libx264"@[0] != "h264_vulkan"@[0]);
}

/// Candidate GStreamer elements of an encoder as string values.
pub open spec fn encoder_element_strs(s: EncoderSpec) -> Seq<&'static str> {
    match s {
        EncoderSpec::Nvenc => seq!["nvh264enc", "nvenc_h264enc"],
        EncoderSpec::Qsv => seq!["qsvh264enc"],
        EncoderSpec::Amf => seq!["amfh264enc"],
        EncoderSpec::Vaapi => seq!["vah264enc", "vaapih264enc"],
        EncoderSpec::Vulkan => seq!["vulkanh264enc"],
        EncoderSpec::X264 => seq!["x264enc", "openh264enc"],
    }
}

/// A property list as `(name, value)` character sequences.
pub open spec fn pairs_view(v: Seq<(String, String)>) -> Seq<(Seq<char>, Seq<char>)> {
    v.map_values(|p: (String, String)| (p.0@, p.1@))
}

/// Topaz-safe encoder properties: B-frames 0, strict GOP of `gop` frames,
/// CBR at `kbps`; never a `zerolatency` tune nor a low-latency preset.
pub open spec fn props_spec(s: EncoderSpec, gop: nat, kbps: nat) -> Seq<(Seq<char>, Seq<char>)> {
    let g = decimal(gop);
    let b = decimal(kbps);
    match s {
        EncoderSpec::Nvenc => seq![
            ("preset"@, "hp"@),
            ("rc-mode"@, "cbr"@),
            ("bitrate"@, b),
            ("gop-size"@, g),
            ("bframes"@, "0"@),
            ("rc-lookahead"@, "0"@),
            ("zerolatency"@, "false"@),
        ],
        EncoderSpec::Qsv | EncoderSpec::Amf => seq![
            ("bitrate"@, b),
            ("gop-size"@, g),
            ("b-frames"@, "0"@),
            ("rate-control"@, "cbr"@),
        ],
        EncoderSpec::Vaapi => seq![
            ("bitrate"@, b),
            ("rate-control"@, "cbr"@),
            ("key-int-max"@, g),
            ("b-frames"@, "0"@),
        ],
        EncoderSpec::Vulkan => seq![
            ("bitrate"@, b),
            ("rate-control"@, "cbr"@),
            ("idr-period"@, g),
            ("b-frames"@, "0"@),
        ],
        EncoderSpec::X264 => seq![
            ("bitrate"@, b),
            ("key-int-max"@, g),
            ("bframes"@, "0"@),
            ("cabac"@, "true"@),
            ("pass"@, "cbr"@),
            ("option-string"@, "sliced-threads=1:sync-lookahead=0:scenecut=0"@),
        ],
    }
}

/// Properties for a concrete element factory: `openh264enc` takes bits/s
/// and `gop-size`; the removed `vaapih264enc` uses `keyframe-period` and
/// `bframes`; every other element gets [`props_spec`].
pub open spec fn props_for_spec(s: EncoderSpec, element: Seq<char>, gop: nat, kbps: nat) -> Seq<
    (Seq<char>, Seq<char>),
> {
    if s == EncoderSpec::X264 && element == "openh264enc"@ {
        seq![
            ("bitrate"@, decimal(kbps * 1000)),
            ("rate-control"@, "bitrate"@),
            ("gop-size"@, decimal(gop)),
        ]
    } else if s == EncoderSpec::Vaapi && element == "vaapih264enc"@ {
        seq![
            ("bitrate"@, decimal(kbps)),
            ("keyframe-period"@, decimal(gop)),
            ("bframes"@, "0"@),
            ("rate-control"@, "cbr"@),
        ]
    } else {
        props_spec(s, gop, kbps)
    }
}

fn pair(k: &str, v: &str) -> (r: (String, String))
    ensures
        r.0@ == k@,
        r.1@ == v@,
{
    (String::from_str(k), String::from_str(v))
}

fn pair_owned(k: &str, v: String) -> (r: (String, String))
    ensures
        r.0@ == k@,
        r.1@ == v@,
{
    (String::from_str(k), v)
}

impl EncoderSpec {
    /// The encoder named by a UI id (`h264_nvenc`, …, `libx264`).
    pub fn from_id(id: &str) -> (r: Option<Self>)
        ensures
            r == encoder_from_id(id@),
    {
        if str_eq(id, "h264_nvenc") {
            Some(Self::Nvenc)
        } else if str_eq(id, "h264_qsv") {
            Some(Self::Qsv)
        } else if str_eq(id, "h264_amf") {
            Some(Self::Amf)
        } else if str_eq(id, "h264_vaapi") {
            Some(Self::Vaapi)
        } else if str_eq(id, "h264_vulkan") {
            Some(Self::Vulkan)
        } else if str_eq(id, "libx264") {
            Some(Self::X264)
        } else {
            None
        }
    }

    /// The UI id of this encoder.
    pub fn id(self) -> (r: &'static str)
        ensures
            r@ == encoder_id(self),
    {
        match self {
            Self::Nvenc => "h264_nvenc",
            Self::Qsv => "h264_qsv",
            Self::Amf => "h264_amf",
            Self::Vaapi => "h264_vaapi",
            Self::Vulkan => "h264_vulkan",
            Self::X264 => "libx264",
        }
    }

    /// Candidate GStreamer encoder elements, best first.
    pub fn gst_elements(self) -> (r: Vec<&'static str>)
        ensures
            r@ == encoder_element_strs(self),
            r@.map_values(|e: &str| e@) == encoder_elements(self),
    {
        let mut v: Vec<&'static str> = Vec::new();
        match self {
            Self::Nvenc => {
                v.push("nvh264enc");
                v.push("nvenc_h264enc");
            },
            Self::Qsv => {
                v.push("qsvh264enc");
            },
            Self::Amf => {
                v.push("amfh264enc");
            },
            Self::Vaapi => {
                v.push("vah264enc");
                v.push("vaapih264enc");
            },
            Self::Vulkan => {
                v.push("vulkanh264enc");
            },
            Self::X264 => {
                v.push("x264enc");
                v.push("openh264enc");
            },
        }
        assert(v@ =~= encoder_element_strs(self));
        assert(v@.map_values(|e: &str| e@) =~= encoder_elements(self));
        v
    }

    /// True for encoders whose sink needs Vulkan device memory
    /// (`vulkanupload` goes before the encoder).
    pub fn needs_vulkan_upload(self) -> (r: bool)
        ensures
            r == (self == EncoderSpec::Vulkan),
    {
        match self {
            Self::Vulkan => true,
            _ => false,
        }
    }

    /// Encoder element properties for Topaz-safe low latency:
    /// B-frames 0, strict 2s GOP, CBR at the profile bitrate.
    pub fn gst_props(self, profile: &Profile) -> (r: Vec<(String, String)>)
        requires
            profile.fps * 2 <= u32::MAX,
        ensures
            pairs_view(r@) == props_spec(self, profile.fps as nat * 2, profile.v_kbps as nat),
    {
        let gop = decimal_string(profile.gop() as u64);
        let bitrate = decimal_string(profile.v_kbps as u64);
        let mut v: Vec<(String, String)> = Vec::new();
        match self {
            Self::Nvenc => {
                v.push(pair("preset", "hp"));
                v.push(pair("rc-mode", "cbr"));
                v.push(pair_owned("bitrate", bitrate));
                v.push(pair_owned("gop-size", gop));
                v.push(pair("bframes", "0"));
                v.push(pair("rc-lookahead", "0"));
                v.push(pair("zerolatency", "false"));
            },
            Self::Qsv | Self::Amf => {
                v.push(pair_owned("bitrate", bitrate));
                v.push(pair_owned("gop-size", gop));
                v.push(pair("b-frames", "0"));
                v.push(pair("rate-control", "cbr"));
            },
            Self::Vaapi => {
                v.push(pair_owned("bitrate", bitrate));
                v.push(pair("rate-control", "cbr"));
                v.push(pair_owned("key-int-max", gop));
                v.push(pair("b-frames", "0"));
            },
            Self::Vulkan => {
                v.push(pair_owned("bitrate", bitrate));
                v.push(pair("rate-control", "cbr"));
                v.push(pair_owned("idr-period", gop));
                v.push(pair("b-frames", "0"));
            },
            Self::X264 => {
                v.push(pair_owned("bitrate", bitrate));
                v.push(pair_owned("key-int-max", gop));
                v.push(pair("bframes", "0"));
                v.push(pair("cabac", "true"));
                v.push(pair("pass", "cbr"));
                v.push(pair("option-string", "sliced-threads=1:sync-lookahead=0:scenecut=0"));
            },
        }
        assert(pairs_view(v@) =~= props_spec(self, profile.fps as nat * 2, profile.v_kbps as nat));
        v
    }

    /// Encoder properties for a concrete element factory (see
    /// [`props_for_spec`] for the per-element dialects).
    pub fn gst_props_for(self, element: &str, profile: &Profile) -> (r: Vec<(String, String)>)
        requires
            profile.fps * 2 <= u32::MAX,
        ensures
            pairs_view(r@) == props_for_spec(
                self,
                element@,
                profile.fps as nat * 2,
                profile.v_kbps as nat,
            ),
    {
        if self == EncoderSpec::X264 && str_eq(element, "openh264enc") {
            let mut v: Vec<(String, String)> = Vec::new();
            v.push(pair_owned("bitrate", decimal_string(profile.v_kbps as u64 * 1000)));
            v.push(pair("rate-control", "bitrate"));
            v.push(pair_owned("gop-size", decimal_string(profile.gop() as u64)));
            assert(pairs_view(v@) =~= props_for_spec(
                self,
                element@,
                profile.fps as nat * 2,
                profile.v_kbps as nat,
            ));
            v
        } else if self == EncoderSpec::Vaapi && str_eq(element, "vaapih264enc") {
            let mut v: Vec<(String, String)> = Vec::new();
            v.push(pair_owned("bitrate", decimal_string(profile.v_kbps as u64)));
            v.push(pair_owned("keyframe-period", decimal_string(profile.gop() as u64)));
            v.push(pair("bframes", "0"));
            v.push(pair("rate-control", "cbr"));
            assert(pairs_view(v@) =~= props_for_spec(
                self,
                element@,
                profile.fps as nat * 2,
                profile.v_kbps as nat,
            ));
            v
        } else {
            self.gst_props(profile)
        }
    }
}

/// Resolved, validated stream plan (bitrate guard applied).
#[derive(Debug, Clone, PartialEq)]
pub struct StreamPlan {
    pub encoder: EncoderSpec,
    pub encoder_element: String,
    pub w: u32,
    pub h: u32,
    pub fps: u32,
    pub v_kbps: u32,
    pub a_kbps: u32,
    pub gop: u32,
    pub rtmp_url: String,
}

/// The `appsrc` video caps: packed BGRA at the profile geometry and rate.
pub open spec fn video_caps_spec(w: u32, h: u32, fps: u32) -> Seq<char> {
    "video/x-raw,format=BGRA,width="@ + decimal(w as nat) + ",height="@ + decimal(h as nat)
        + ",framerate="@ + decimal(fps as nat) + "/1"@
}

/// The `appsrc` audio caps: the mixer's interleaved F32LE stereo at 48 kHz.
pub open spec fn audio_caps_spec() -> Seq<char> {
    "audio/x-raw,format=F32LE,layout=interleaved,rate=48000,channels=2"@
}

impl StreamPlan {
    /// The `appsrc` video caps: always BGRA (the frame pacer normalizes to packed
    /// BGRA; the tail videoconvert adapts to the encoder).
    pub fn video_caps(&self) -> (r: String)
        ensures
            r@ == video_caps_spec(self.w, self.h, self.fps),
    {
        let mut s = String::from_str("video/x-raw,format=BGRA,width=");
        push_decimal(&mut s, self.w as u64);
        s.append(",height=");
        push_decimal(&mut s, self.h as u64);
        s.append(",framerate=");
        push_decimal(&mut s, self.fps as u64);
        s.append("/1");
        assert(s@ =~= video_caps_spec(self.w, self.h, self.fps));
        s
    }

    /// The `appsrc` audio caps (`layout` is required by audioconvert).
    pub fn audio_caps(&self) -> (r: String)
        ensures
            r@ == audio_caps_spec(),
    {
        String::from_str("audio/x-raw,format=F32LE,layout=interleaved,rate=48000,channels=2")
    }
}

/// The `k`-th auto-selection candidate, in priority order.
pub open spec fn auto_candidate(k: int) -> Seq<char> {
    if k == 0 {
        "h264_nvenc"@
    } else if k == 1 {
        "h264_qsv"@
    } else if k == 2 {
        "h264_amf"@
    } else {
        "h264_vaapi"@
    }
}

/// True when `name` occurs in `names`.
pub open spec fn has_name(names: Seq<Seq<char>>, name: Seq<char>) -> bool {
    exists|i: int| 0 <= i < names.len() && names[i] == name
}

/// Auto selection from candidate `k` on: the first candidate present in
/// `avail`, else the software encoder.
pub open spec fn auto_pick_from(avail: Seq<Seq<char>>, k: int) -> EncoderSpec
    decreases 4 - k,
{
    if k >= 4 || k < 0 {
        EncoderSpec::X264
    } else if has_name(avail, auto_candidate(k)) {
        encoder_from_id(auto_candidate(k))->0
    } else {
        auto_pick_from(avail, k + 1)
    }
}

/// Auto selection: NVENC > QSV > AMF > VAAPI among `avail`, else x264.
/// Vulkan is never auto-selected.
pub open spec fn auto_pick(avail: Seq<Seq<char>>) -> EncoderSpec {
    auto_pick_from(avail, 0)
}

/// True when an override means automatic selection: empty, white space or
/// `auto`.
pub open spec fn is_auto(ov: Seq<char>) -> bool {
    trim(ov).len() == 0 || trim(ov) == "auto"@
}

/// The encoder an override resolves to against the usable ids `avail`.
/// A manual id is used as-is (registry presence is not gated here).
pub open spec fn resolved(ov: Seq<char>, avail: Seq<Seq<char>>) -> Option<EncoderSpec> {
    if is_auto(ov) {
        Some(auto_pick(avail))
    } else {
        encoder_from_id(trim(ov))
    }
}

/// The character sequences of a list of strings.
pub open spec fn names_view(v: Seq<String>) -> Seq<Seq<char>> {
    v.map_values(|s: String| s@)
}

fn names_contain(available: &[String], name: &str) -> (r: bool)
    ensures
        r == has_name(names_view(available@), name@),
{
    let mut j: usize = 0;
    while j < available.len()
        invariant
            j <= available@.len(),
            forall|i: int| 0 <= i < j ==> names_view(available@)[i] != name@,
        decreases available@.len() - j,
    {
        if str_eq(available[j].as_str(), name) {
            assert(names_view(available@)[j as int] == name@);
            return true;
        }
        j = j + 1;
    }
    false
}

proof fn lemma_auto_candidates()
    ensures
        crate::gst::probe::AUTO_CANDIDATES@.len() == 4,
        forall|k: int|
            0 <= k < 4 ==> (#[trigger] crate::gst::probe::AUTO_CANDIDATES@[k])@ == auto_candidate(k),
        forall|k: int| 0 <= k < 4 ==> encoder_from_id(#[trigger] auto_candidate(k)) is Some,
{
    reveal_strlit("h264_nvenc");
    reveal_strlit("h264_qsv");
    reveal_strlit("h264_amf");
    reveal_strlit("h264_vaapi");
}

/// Resolves an encoder override (`auto`, empty/white space, or a manual
/// id) to an encoder. `available` lists the usable UI ids; `auto` picks in
/// priority order and falls back to `libx264`. A manual id is used as-is:
/// only the id is validated.
pub fn resolve_encoder(encoder_override: &str, available: &[String]) -> (r: Result<
    EncoderSpec,
    Error,
>)
    ensures
        r is Ok <==> resolved(encoder_override@, names_view(available@)) is Some,
        r matches Ok(s) ==> resolved(encoder_override@, names_view(available@)) == Some(s),
        r is Err ==> (r matches Err(Error::EncoderNotAvailable(m)) && m@ == trim(
            encoder_override@,
        )),
{
    let id = trimmed(encoder_override);
    if id.unicode_len() == 0 || str_eq(id.as_str(), "auto") {
        proof {
            lemma_auto_candidates();
        }
        let mut k: usize = 0;
        while k < 4
            invariant
                k <= 4,
                id@ == trim(encoder_override@),
                is_auto(encoder_override@),
                auto_pick(names_view(available@)) == auto_pick_from(names_view(available@), k as int),
                crate::gst::probe::AUTO_CANDIDATES@.len() == 4,
                forall|j: int|
                    0 <= j < 4 ==> (#[trigger] crate::gst::probe::AUTO_CANDIDATES@[j])@
                        == auto_candidate(j),
                forall|j: int| 0 <= j < 4 ==> encoder_from_id(#[trigger] auto_candidate(j)) is Some,
            decreases 4 - k,
        {
            let cand = crate::gst::probe::AUTO_CANDIDATES[k];
            assert(cand@ == auto_candidate(k as int));
            if names_contain(available, cand) {
                match EncoderSpec::from_id(cand) {
                    Some(s) => {
                        return Ok(s);
                    },
                    None => {
                        assert(false);
                        return Err(Error::EncoderNotAvailable(String::from_str(cand)));
                    },
                }
            }
            k = k + 1;
        }
        return Ok(EncoderSpec::X264);
    }
    match EncoderSpec::from_id(id.as_str()) {
        Some(s) => Ok(s),
        None => Err(Error::EncoderNotAvailable(id)),
    }
}

/// Common lower bound accepted by every hardware encoder in use
/// (nvenc 160x64, amf 128x128, qsv 16x16): 160x128.
pub const MIN_HW_W: u32 = 160;
pub const MIN_HW_H: u32 = 128;

/// The frame rate is at least 1.
pub open spec fn fps_ok(p: Profile) -> bool {
    p.fps >= 1
}

/// Both dimensions are positive even numbers.
pub open spec fn dims_even(p: Profile) -> bool {
    p.w > 0 && p.h > 0 && p.w % 2 == 0 && p.h % 2 == 0
}

/// The geometry reaches the common hardware encoder minimum.
pub open spec fn size_ok(p: Profile) -> bool {
    p.w >= MIN_HW_W && p.h >= MIN_HW_H
}

/// The profile geometry every encoder can take.
pub open spec fn geometry_ok(p: Profile) -> bool {
    fps_ok(p) && dims_even(p) && size_ok(p)
}

pub open spec fn fps_message(fps: u32) -> Seq<char> {
    "profile fps must be >= 1 (got "@ + decimal(fps as nat) + ")"@
}

pub open spec fn dims_message(w: u32, h: u32) -> Seq<char> {
    "profile dimensions must be positive even numbers (got "@ + decimal(w as nat) + "x"@ + decimal(
        h as nat,
    ) + ")"@
}

pub open spec fn size_message(w: u32, h: u32) -> Seq<char> {
    "profile "@ + decimal(w as nat) + "x"@ + decimal(h as nat)
        + " is below the minimum encoder size 160x128"@
}

/// Rejects unusable profile geometry before a pipeline is built: a zero
/// frame rate, zero/odd sizes, or sizes below the hardware minimum, in
/// that order.
pub fn validate_profile(profile: &Profile) -> (r: Result<(), Error>)
    ensures
        r is Ok <==> geometry_ok(*profile),
        !fps_ok(*profile) ==> (r matches Err(Error::Config(m)) && m@ == fps_message(profile.fps)),
        fps_ok(*profile) && !dims_even(*profile) ==> (r matches Err(Error::Config(m)) && m@
            == dims_message(profile.w, profile.h)),
        fps_ok(*profile) && dims_even(*profile) && !size_ok(*profile) ==> (r matches Err(
            Error::Config(m),
        ) && m@ == size_message(profile.w, profile.h)),
{
    if profile.fps < 1 {
        let mut m = String::from_str("profile fps must be >= 1 (got ");
        push_decimal(&mut m, profile.fps as u64);
        m.append(")");
        assert(m@ =~= fps_message(profile.fps));
        return Err(Error::Config(m));
    }
    if profile.w == 0 || profile.h == 0 || profile.w % 2 != 0 || profile.h % 2 != 0 {
        let mut m = String::from_str("profile dimensions must be positive even numbers (got ");
        push_decimal(&mut m, profile.w as u64);
        m.append("x");
        push_decimal(&mut m, profile.h as u64);
        m.append(")");
        assert(m@ =~= dims_message(profile.w, profile.h));
        return Err(Error::Config(m));
    }
    if profile.w < MIN_HW_W || profile.h < MIN_HW_H {
        let mut m = String::from_str("profile ");
        push_decimal(&mut m, profile.w as u64);
        m.append("x");
        push_decimal(&mut m, profile.h as u64);
        m.append(" is below the minimum encoder size 160x128");
        assert(m@ =~= size_message(profile.w, profile.h));
        return Err(Error::Config(m));
    }
    Ok(())
}

/// The ingest URL as used in the RTMP location: trimmed, without trailing
/// slashes.
pub open spec fn ingest_base(u: Seq<char>) -> Seq<char> {
    crate::text::drop_trailing(trim(u), |c: char| c == '/')
}

/// The ingest URL uses an RTMP scheme.
pub open spec fn ingest_ok(u: Seq<char>) -> bool {
    starts_with(ingest_base(u), "rtmp://"@) || starts_with(ingest_base(u), "rtmps://"@)
}

pub open spec fn ingest_message(u: Seq<char>) -> Seq<char> {
    "ingest URL must start with rtmp:// or rtmps://: "@ + u
}

/// Every check of [`build_plan`] passes.
pub open spec fn plan_ok(
    profile: Profile,
    ov: Seq<char>,
    avail: Seq<Seq<char>>,
    ingest: Seq<char>,
    key: Seq<char>,
) -> bool {
    &&& geometry_ok(profile)
    &&& bitrate_ok(profile.v_kbps, profile.a_kbps)
    &&& key_valid(trim(key))
    &&& ingest_ok(ingest)
    &&& resolved(ov, avail) is Some
}

/// The element a plan uses: the preferred one, else the encoder's first
/// candidate.
pub open spec fn plan_element(s: EncoderSpec, preferred: Option<&str>) -> Seq<char> {
    match preferred {
        Some(e) => e@,
        None => encoder_elements(s)[0],
    }
}

fn ingest_trimmed_bounds(v: &Vec<char>) -> (r: (usize, usize))
    ensures
        r.0 <= r.1 <= v.len(),
        ingest_base(v@) == v@.subrange(r.0 as int, r.1 as int),
{
    let (lo, hi0) = trim_bounds(v);
    let ghost t = v@.subrange(lo as int, hi0 as int);
    let mut hi = hi0;
    while hi > lo && v[hi - 1] == '/'
        invariant
            lo <= hi <= hi0 <= v.len(),
            t == v@.subrange(lo as int, hi0 as int),
            forall|i: int| hi <= i < hi0 ==> v@[i] == '/',
        decreases hi,
    {
        hi = hi - 1;
    }
    proof {
        let slash = |c: char| c == '/';
        assert forall|i: int| hi - lo <= i < t.len() implies slash(#[trigger] t[i]) by {
            assert(t[i] == v@[i + lo]);
        }
        if hi > lo {
            assert(t[hi - lo - 1] == v@[hi - 1]);
        }
        crate::text::lemma_drop_trailing(t, slash, hi - lo);
        assert(t.subrange(0, hi - lo) =~= v@.subrange(lo as int, hi as int));
    }
    (lo, hi)
}

/// Validates a profile, the stream key and the ingest URL, resolves the
/// encoder and builds the stream plan. Checks run in this order: profile
/// geometry, bitrate limits, stream key (trimmed), ingest URL scheme,
/// encoder id.
pub fn build_plan(
    profile: &Profile,
    encoder_override: &str,
    available: &[String],
    ingest_url: &str,
    stream_key: &str,
    preferred_element: Option<&str>,
) -> (r: Result<StreamPlan, Error>)
    requires
        plan_ok(*profile, encoder_override@, names_view(available@), ingest_url@, stream_key@)
            ==> profile.fps * 2 <= u32::MAX,
    ensures
        r is Ok <==> plan_ok(
            *profile,
            encoder_override@,
            names_view(available@),
            ingest_url@,
            stream_key@,
        ),
        !fps_ok(*profile) ==> (r matches Err(Error::Config(m)) && m@ == fps_message(profile.fps)),
        fps_ok(*profile) && !dims_even(*profile) ==> (r matches Err(Error::Config(m)) && m@
            == dims_message(profile.w, profile.h)),
        fps_ok(*profile) && dims_even(*profile) && !size_ok(*profile) ==> (r matches Err(
            Error::Config(m),
        ) && m@ == size_message(profile.w, profile.h)),
        geometry_ok(*profile) && !bitrate_ok(profile.v_kbps, profile.a_kbps) ==> r == Err::<
            StreamPlan,
            Error,
        >(Error::BitrateOver { v_kbps: profile.v_kbps, a_kbps: profile.a_kbps }),
        geometry_ok(*profile) && bitrate_ok(profile.v_kbps, profile.a_kbps) && !key_valid(
            trim(stream_key@),
        ) ==> (r matches Err(Error::StreamKey(m)) && (if 3 <= trim(stream_key@).len() <= 64 {
            m@ == crate::config::key_charset_message()
        } else {
            m@ == crate::config::key_length_message()
        })),
        geometry_ok(*profile) && bitrate_ok(profile.v_kbps, profile.a_kbps) && key_valid(
            trim(stream_key@),
        ) && !ingest_ok(ingest_url@) ==> (r matches Err(Error::Config(m)) && m@ == ingest_message(
            ingest_url@,
        )),
        geometry_ok(*profile) && bitrate_ok(profile.v_kbps, profile.a_kbps) && key_valid(
            trim(stream_key@),
        ) && ingest_ok(ingest_url@) && resolved(encoder_override@, names_view(available@))
            is None ==> (r matches Err(Error::EncoderNotAvailable(m)) && m@ == trim(
            encoder_override@,
        )),
        r matches Ok(p) ==> {
            &&& Some(p.encoder) == resolved(encoder_override@, names_view(available@))
            &&& p.encoder_element@ == plan_element(p.encoder, preferred_element)
            &&& p.w == profile.w
            &&& p.h == profile.h
            &&& p.fps == profile.fps
            &&& p.v_kbps == profile.v_kbps
            &&& p.a_kbps == profile.a_kbps
            &&& p.gop == profile.fps * 2
            &&& p.rtmp_url@ == ingest_base(ingest_url@) + "/"@ + trim(stream_key@)
        },
{
    validate_profile(profile)?;
    validate_bitrate(profile.v_kbps, profile.a_kbps)?;
    let key = trimmed(stream_key);
    validate_stream_key(key.as_str())?;
    let iv = chars_of(ingest_url);
    let (lo, hi) = ingest_trimmed_bounds(&iv);
    let ingest = string_of_range(&iv, lo, hi);
    let ic = chars_of(ingest.as_str());
    if !(vec_starts_with(&ic, "rtmp://") || vec_starts_with(&ic, "rtmps://")) {
        let mut m = String::from_str("ingest URL must start with rtmp:// or rtmps://: ");
        m.append(ingest_url);
        return Err(Error::Config(m));
    }
    let spec = resolve_encoder(encoder_override, available)?;
    let element = match preferred_element {
        Some(e) => String::from_str(e),
        None => {
            let elems = spec.gst_elements();
            assert(encoder_elements(spec).len() >= 1);
            assert(elems@.map_values(|e: &str| e@).len() == elems@.len());
            assert(elems@.map_values(|e: &str| e@)[0] == elems@[0]@);
            String::from_str(elems[0])
        },
    };
    let mut url = ingest;
    url.append("/");
    url.append(key.as_str());
    Ok(
        StreamPlan {
            encoder: spec,
            encoder_element: element,
            w: profile.w,
            h: profile.h,
            fps: profile.fps,
            v_kbps: profile.v_kbps,
            a_kbps: profile.a_kbps,
            gop: profile.gop(),
            rtmp_url: url,
        },
    )
}

/// `name=value`.
pub open spec fn prop_text(p: (Seq<char>, Seq<char>)) -> Seq<char> {
    p.0 + "="@ + p.1
}

/// The properties as `name=value` joined by single spaces.
pub open spec fn join_props(ps: Seq<(Seq<char>, Seq<char>)>) -> Seq<char>
    decreases ps.len(),
{
    if ps.len() == 0 {
        Seq::empty()
    } else if ps.len() == 1 {
        prop_text(ps[0])
    } else {
        join_props(ps.drop_last()) + " "@ + prop_text(ps.last())
    }
}

fn join_pairs(v: &Vec<(String, String)>) -> (r: String)
    ensures
        r@ == join_props(pairs_view(v@)),
{
    let mut s = String::new();
    let mut i: usize = 0;
    while i < v.len()
        invariant
            i <= v.len(),
            s@ == join_props(pairs_view(v@).take(i as int)),
        decreases v.len() - i,
    {
        let ghost before = s@;
        if i > 0 {
            s.append(" ");
        }
        s.append(v[i].0.as_str());
        s.append("=");
        s.append(v[i].1.as_str());
        proof {
            let ps = pairs_view(v@);
            assert(ps.take(i + 1).drop_last() =~= ps.take(i as int));
            assert(ps.take(i + 1).last() == ps[i as int]);
            assert(ps[i as int] == (v@[i as int].0@, v@[i as int].1@));
            if i == 0 {
                assert(s@ =~= prop_text(ps.take(1)[0]));
            } else {
                assert(s@ =~= before + " "@ + prop_text(ps.take(i + 1).last()));
            }
        }
        i = i + 1;
    }
    assert(pairs_view(v@).take(v.len() as int) =~= pairs_view(v@));
    s
}

/// The `gst-launch-1.0` description of a plan (see the topology above).
pub open spec fn launch_spec(plan: StreamPlan) -> Seq<char> {
    launch_head(plan) + upload_stage(plan) + encoder_stage(plan) + launch_rest(plan)
}

/// The `vulkanupload` stage, present exactly for the Vulkan encoder.
pub open spec fn upload_stage(plan: StreamPlan) -> Seq<char> {
    if plan.encoder == EncoderSpec::Vulkan {
        " ! vulkanupload"@
    } else {
        Seq::empty()
    }
}

/// The video leg of the launch description up to the tail converter.
pub open spec fn launch_head(plan: StreamPlan) -> Seq<char> {
    "appsrc name=video_src "@ + "caps=\""@ + video_caps_spec(plan.w, plan.h, plan.fps) + "\""@
        + " is-live=true format=time ! videoconvert ! videoscale ! \"video/x-raw,width="@
        + decimal(plan.w as nat) + ",height="@ + decimal(plan.h as nat) + ",framerate="@ + decimal(
        plan.fps as nat,
    ) + "/1\" ! "@ + "queue ! videoconvert"@
}

/// The encoder stage: the element with its property text.
pub open spec fn encoder_stage(plan: StreamPlan) -> Seq<char> {
    " ! "@ + plan.encoder_element@ + " "@ + join_props(
        props_for_spec(plan.encoder, plan.encoder_element@, plan.fps as nat * 2, plan.v_kbps as nat),
    ) + " ! h264parse"@
}

/// The rest of the description after the encoder stage: the audio leg,
/// the muxer and the RTMP sink.
pub open spec fn launch_rest(plan: StreamPlan) -> Seq<char> {
    " ! mux. appsrc name=audio_src "@ + "caps=\""@ + audio_caps_spec() + "\""@
        + " is-live=true format=time ! audioconvert ! audioresample ! queue ! audioconvert ! "@
        + "voaacenc bitrate="@ + decimal(plan.a_kbps as nat * 1000)
        + " ! aacparse ! mux. flvmux name=mux streamable=true ! "@ + "rtmp2sink location=\""@
        + plan.rtmp_url@ + "\""@
}

fn head_text(plan: &StreamPlan) -> (r: String)
    ensures
        r@ == launch_head(*plan),
{
    let vcaps = plan.video_caps();
    let mut s = String::from_str("appsrc name=video_src ");
    s.append("caps=\"");
    s.append(vcaps.as_str());
    s.append("\"");
    s.append(" is-live=true format=time ! videoconvert ! videoscale ! \"video/x-raw,width=");
    push_decimal(&mut s, plan.w as u64);
    s.append(",height=");
    push_decimal(&mut s, plan.h as u64);
    s.append(",framerate=");
    push_decimal(&mut s, plan.fps as u64);
    s.append("/1\" ! ");
    s.append("queue ! videoconvert");
    assert(s@ =~= launch_head(*plan));
    s
}

fn stage_text(plan: &StreamPlan) -> (r: String)
    requires
        plan.fps * 2 <= u32::MAX,
    ensures
        r@ == encoder_stage(*plan),
{
    let profile = Profile {
        name: String::new(),
        w: plan.w,
        h: plan.h,
        fps: plan.fps,
        v_kbps: plan.v_kbps,
        a_kbps: plan.a_kbps,
        encoder: String::from_str("auto"),
        warn: None,
    };
    let props = plan.encoder.gst_props_for(plan.encoder_element.as_str(), &profile);
    let enc_props = join_pairs(&props);
    let mut s = String::from_str(" ! ");
    s.append(plan.encoder_element.as_str());
    s.append(" ");
    s.append(enc_props.as_str());
    s.append(" ! h264parse");
    assert(s@ =~= encoder_stage(*plan));
    s
}

fn rest_text(plan: &StreamPlan) -> (r: String)
    ensures
        r@ == launch_rest(*plan),
{
    let acaps = plan.audio_caps();
    let mut s = String::from_str(" ! mux. appsrc name=audio_src ");
    s.append("caps=\"");
    s.append(acaps.as_str());
    s.append("\"");
    s.append(" is-live=true format=time ! audioconvert ! audioresample ! queue ! audioconvert ! ");
    s.append("voaacenc bitrate=");
    push_decimal(&mut s, plan.a_kbps as u64 * 1000);
    s.append(" ! aacparse ! mux. flvmux name=mux streamable=true ! ");
    s.append("rtmp2sink location=\"");
    s.append(plan.rtmp_url.as_str());
    s.append("\"");
    assert(s@ =~= launch_rest(*plan));
    s
}

/// `gst-launch-1.0`-compatible description of the plan, for debugging
/// and end-to-end checks; the running pipeline has the same topology.
pub fn build_launch_string(plan: &StreamPlan) -> (r: String)
    requires
        plan.fps * 2 <= u32::MAX,
    ensures
        r@ == launch_spec(*plan),
{
    let mut s = head_text(plan);
    let ghost head = s@;
    if plan.encoder.needs_vulkan_upload() {
        s.append(" ! vulkanupload");
    }
    assert(s@ =~= head + upload_stage(*plan));
    let stage = stage_text(plan);
    s.append(stage.as_str());
    let rest = rest_text(plan);
    s.append(rest.as_str());
    assert(s@ =~= launch_spec(*plan));
    s
}

/// Automatic selection never picks the Vulkan encoder, whatever
/// is available; it is reachable only as a manual choice.
pub proof fn auto_never_picks_vulkan(avail: Seq<Seq<char>>, ov: Seq<char>)
    ensures
        auto_pick(avail) != EncoderSpec::Vulkan,
        resolved(ov, avail) == Some(EncoderSpec::Vulkan) ==> !is_auto(ov) && trim(ov)
            == "h264_vulkan"@,
{
    lemma_auto_pick_hardware(avail, 0);
    lemma_id_roundtrip(EncoderSpec::Vulkan);
    if resolved(ov, avail) == Some(EncoderSpec::Vulkan) && !is_auto(ov) {
        lemma_from_id_inverse(trim(ov));
    }
}

/// The encoder named by an id has that id.
proof fn lemma_from_id_inverse(id: Seq<char>)
    ensures
        encoder_from_id(id) matches Some(s) ==> encoder_id(s) == id,
{
}

/// Automatic selection from candidate `k` on yields a hardware candidate
/// or the software encoder.
proof fn lemma_auto_pick_hardware(avail: Seq<Seq<char>>, k: int)
    requires
        0 <= k <= 4,
    ensures
        auto_pick_from(avail, k) != EncoderSpec::Vulkan,
    decreases 4 - k,
{
    lemma_id_roundtrip(EncoderSpec::Nvenc);
    lemma_id_roundtrip(EncoderSpec::Qsv);
    lemma_id_roundtrip(EncoderSpec::Amf);
    lemma_id_roundtrip(EncoderSpec::Vaapi);
    if k < 4 {
        lemma_auto_pick_hardware(avail, k + 1);
    }
}

/// Names of the properties that set the keyframe interval.
pub open spec fn is_gop_key(k: Seq<char>) -> bool {
    k == "gop-size"@ || k == "key-int-max"@ || k == "idr-period"@ || k == "keyframe-period"@
}

/// Names of the properties that set the number of B-frames.
pub open spec fn is_bframes_key(k: Seq<char>) -> bool {
    k == "bframes"@ || k == "b-frames"@
}

/// Topaz-safe low latency: whatever the encoder and element,
/// the properties set the keyframe interval to `gop` frames and the
/// bitrate to the profile bitrate (bits/s for `openh264enc`), disable
/// B-frames wherever the element has such a property (`openh264enc` has
/// none), and never set a `tune` (so no `zerolatency` tune).
pub proof fn props_are_topaz_safe(s: EncoderSpec, element: Seq<char>, gop: nat, kbps: nat)
    ensures
        ({
            let p = props_for_spec(s, element, gop, kbps);
            &&& exists|i: int| 0 <= i < p.len() && is_gop_key(p[i].0) && p[i].1 == decimal(gop)
            &&& exists|i: int|
                0 <= i < p.len() && p[i].0 == "bitrate"@ && (p[i].1 == decimal(kbps) || p[i].1
                    == decimal(kbps * 1000))
            &&& !(s == EncoderSpec::X264 && element == "openh264enc"@) ==> exists|i: int|
                0 <= i < p.len() && is_bframes_key(p[i].0) && p[i].1 == "0"@
            &&& forall|i: int| 0 <= i < p.len() ==> p[i].0 != "tune"@
        }),
{
    let p = props_for_spec(s, element, gop, kbps);
    reveal_strlit("tune");
    reveal_strlit("pass");
    assert("tune"@[0] != "pass"@[0]);
    reveal_strlit("preset");
    reveal_strlit("rc-mode");
    reveal_strlit("bitrate");
    reveal_strlit("gop-size");
    reveal_strlit("bframes");
    reveal_strlit("rc-lookahead");
    reveal_strlit("zerolatency");
    reveal_strlit("b-frames");
    reveal_strlit("rate-control");
    reveal_strlit("key-int-max");
    reveal_strlit("idr-period");
    reveal_strlit("cabac");
    reveal_strlit("option-string");
    reveal_strlit("keyframe-period");
    assert(p[0].0 == "bitrate"@ || p[2].0 == "bitrate"@);
    if s == EncoderSpec::X264 && element == "openh264enc"@ {
        assert(is_gop_key(p[2].0) && p[2].1 == decimal(gop));
    } else if s == EncoderSpec::Vaapi && element == "vaapih264enc"@ {
        assert(is_gop_key(p[1].0) && p[1].1 == decimal(gop));
        assert(is_bframes_key(p[2].0) && p[2].1 == "0"@);
    } else {
        match s {
            EncoderSpec::Nvenc => {
                assert(is_gop_key(p[3].0) && p[3].1 == decimal(gop));
                assert(is_bframes_key(p[4].0) && p[4].1 == "0"@);
            },
            EncoderSpec::Qsv | EncoderSpec::Amf => {
                assert(is_gop_key(p[1].0) && p[1].1 == decimal(gop));
                assert(is_bframes_key(p[2].0) && p[2].1 == "0"@);
            },
            EncoderSpec::Vaapi | EncoderSpec::Vulkan => {
                assert(is_gop_key(p[2].0) && p[2].1 == decimal(gop));
                assert(is_bframes_key(p[3].0) && p[3].1 == "0"@);
            },
            EncoderSpec::X264 => {
                assert(is_gop_key(p[1].0) && p[1].1 == decimal(gop));
                assert(is_bframes_key(p[2].0) && p[2].1 == "0"@);
            },
        }
    }
}

/// The element name picks another property dialect only for
/// `openh264enc` under the software encoder and `vaapih264enc` under
/// VA-API; for every other pair the properties are the encoder's own.
pub proof fn props_for_other_elements(s: EncoderSpec, element: Seq<char>, gop: nat, kbps: nat)
    requires
        !(s == EncoderSpec::X264 && element == "openh264enc"@),
        !(s == EncoderSpec::Vaapi && element == "vaapih264enc"@),
    ensures
        props_for_spec(s, element, gop, kbps) == props_spec(s, gop, kbps),
{
}

/// Every element takes the profile's video bitrate in kbit/s, as is,
/// except `openh264enc` under the software encoder, which takes bit/s;
/// the bitrate appears once in the property list.
pub proof fn bitrate_is_kbits_except_openh264(s: EncoderSpec, element: Seq<char>, gop: nat, kbps: nat)
    ensures
        ({
            let ps = props_for_spec(s, element, gop, kbps);
            let want = if s == EncoderSpec::X264 && element == "openh264enc"@ {
                decimal(kbps * 1000)
            } else {
                decimal(kbps)
            };
            &&& exists|i: int| 0 <= i < ps.len() && #[trigger] ps[i] == ("bitrate"@, want)
            &&& forall|i: int| 0 <= i < ps.len() && #[trigger] ps[i].0 == "bitrate"@ ==> ps[i].1 == want
        }),
{
    reveal_strlit("bitrate");
    reveal_strlit("preset");
    reveal_strlit("rc-mode");
    reveal_strlit("gop-size");
    reveal_strlit("bframes");
    reveal_strlit("rc-lookahead");
    reveal_strlit("zerolatency");
    reveal_strlit("b-frames");
    reveal_strlit("rate-control");
    reveal_strlit("key-int-max");
    reveal_strlit("idr-period");
    reveal_strlit("cabac");
    reveal_strlit("pass");
    reveal_strlit("option-string");
    reveal_strlit("keyframe-period");
    let ps = props_for_spec(s, element, gop, kbps);
    let want = if s == EncoderSpec::X264 && element == "openh264enc"@ {
        decimal(kbps * 1000)
    } else {
        decimal(kbps)
    };
    let j: int = if s == EncoderSpec::Nvenc && !(s == EncoderSpec::X264 && element == "openh264enc"@) {
        2
    } else {
        0
    };
    assert(ps[j] == ("bitrate"@, want));
    assert forall|i: int| 0 <= i < ps.len() && #[trigger] ps[i].0 == "bitrate"@ implies ps[i].1 == want by {
        if i != j {
            assert(ps[i].0.len() != 7 || ps[i].0[0] != 'b' || ps[i].0[1] != 'i');
        }
    }
}

/// `t` occurs in `s`.
pub open spec fn occurs(s: Seq<char>, t: Seq<char>) -> bool {
    exists|i: int| 0 <= i && i + t.len() <= s.len() && #[trigger] s.subrange(i, i + t.len()) == t
}

proof fn lemma_occurs_mid(a: Seq<char>, t: Seq<char>, b: Seq<char>)
    ensures
        occurs(a + t + b, t),
{
    assert((a + t + b).subrange(a.len() as int, (a.len() + t.len()) as int) =~= t);
    assert(0 <= a.len() as int && a.len() + t.len() <= (a + t + b).len());
}

/// The launch description is the video leg up to the tail converter, the
/// `vulkanupload` stage exactly for the Vulkan encoder, the encoder stage,
/// then the audio leg, the muxer and the RTMP sink: the queue and the tail
/// converter always come right before the encoder, or before the upload
/// stage that precedes it.
pub proof fn launch_string_stages(plan: StreamPlan)
    ensures
        plan.encoder == EncoderSpec::Vulkan ==> occurs(
            launch_spec(plan),
            "queue ! videoconvert"@ + " ! vulkanupload"@ + " ! "@ + plan.encoder_element@,
        ),
        plan.encoder != EncoderSpec::Vulkan ==> occurs(
            launch_spec(plan),
            "queue ! videoconvert"@ + " ! "@ + plan.encoder_element@,
        ),
        plan.encoder != EncoderSpec::Vulkan ==> launch_spec(plan) == launch_head(plan)
            + encoder_stage(plan) + launch_rest(plan),
        plan.encoder == EncoderSpec::Vulkan ==> launch_spec(plan) == launch_head(plan)
            + " ! vulkanupload"@ + encoder_stage(plan) + launch_rest(plan),
{
    let el = plan.encoder_element@;
    let pre = "appsrc name=video_src "@ + "caps=\""@ + video_caps_spec(plan.w, plan.h, plan.fps)
        + "\""@ + " is-live=true format=time ! videoconvert ! videoscale ! \"video/x-raw,width="@
        + decimal(plan.w as nat) + ",height="@ + decimal(plan.h as nat) + ",framerate="@ + decimal(
        plan.fps as nat,
    ) + "/1\" ! "@;
    let after = " "@ + join_props(
        props_for_spec(plan.encoder, el, plan.fps as nat * 2, plan.v_kbps as nat),
    ) + " ! h264parse"@ + launch_rest(plan);
    if plan.encoder == EncoderSpec::Vulkan {
        let t = "queue ! videoconvert"@ + " ! vulkanupload"@ + " ! "@ + el;
        assert(launch_spec(plan) =~= pre + t + after);
        lemma_occurs_mid(pre, t, after);
    } else {
        assert(launch_spec(plan) =~= launch_head(plan) + encoder_stage(plan) + launch_rest(plan));
        let t = "queue ! videoconvert"@ + " ! "@ + el;
        assert(launch_spec(plan) =~= pre + t + after);
        lemma_occurs_mid(pre, t, after);
    }
}

proof fn lemma_launch_video_caps(plan: StreamPlan)
    ensures
        occurs(launch_spec(plan), "caps=\""@ + video_caps_spec(plan.w, plan.h, plan.fps) + "\""@),
{
    let vc = "caps=\""@ + video_caps_spec(plan.w, plan.h, plan.fps) + "\""@;
    let h = launch_head(plan);
    let h_after = " is-live=true format=time ! videoconvert ! videoscale ! \"video/x-raw,width="@
        + decimal(plan.w as nat) + ",height="@ + decimal(plan.h as nat) + ",framerate="@ + decimal(
        plan.fps as nat,
    ) + "/1\" ! "@ + "queue ! videoconvert"@;
    assert(h =~= "appsrc name=video_src "@ + vc + h_after);
    let rest = upload_stage(plan) + encoder_stage(plan) + launch_rest(plan);
    assert(launch_spec(plan) =~= h + rest);
    assert(launch_spec(plan) =~= "appsrc name=video_src "@ + vc + (h_after + rest));
    lemma_occurs_mid("appsrc name=video_src "@, vc, h_after + rest);
}

proof fn lemma_launch_rest_parts(plan: StreamPlan)
    ensures
        occurs(launch_rest(plan), "caps=\""@ + audio_caps_spec() + "\""@),
        occurs(launch_rest(plan), "voaacenc bitrate="@ + decimal(plan.a_kbps as nat * 1000)),
        ({
            let sink = "rtmp2sink location=\""@ + plan.rtmp_url@ + "\""@;
            &&& launch_rest(plan).len() >= sink.len()
            &&& launch_rest(plan).subrange(
                launch_rest(plan).len() - sink.len(),
                launch_rest(plan).len() as int,
            ) == sink
        }),
{
    let r = launch_rest(plan);
    let a0 = " ! mux. appsrc name=audio_src "@;
    let ac = "caps=\""@ + audio_caps_spec() + "\""@;
    let mid = " is-live=true format=time ! audioconvert ! audioresample ! queue ! audioconvert ! "@;
    let vb = "voaacenc bitrate="@ + decimal(plan.a_kbps as nat * 1000);
    let tail = " ! aacparse ! mux. flvmux name=mux streamable=true ! "@;
    let sink = "rtmp2sink location=\""@ + plan.rtmp_url@ + "\""@;
    assert(r =~= a0 + ac + (mid + vb + tail + sink));
    lemma_occurs_mid(a0, ac, mid + vb + tail + sink);
    assert(r =~= (a0 + ac + mid) + vb + (tail + sink));
    lemma_occurs_mid(a0 + ac + mid, vb, tail + sink);
    assert(r =~= (a0 + ac + mid + vb + tail) + sink);
    assert(r.subrange(r.len() - sink.len(), r.len() as int) =~= sink);
}

proof fn lemma_occurs_suffix(pre: Seq<char>, s: Seq<char>, t: Seq<char>)
    requires
        occurs(s, t),
    ensures
        occurs(pre + s, t),
{
    let i = choose|i: int| 0 <= i && i + t.len() <= s.len() && #[trigger] s.subrange(i, i + t.len()) == t;
    assert((pre + s).subrange(pre.len() + i, pre.len() + i + t.len()) =~= s.subrange(i, i + t.len()));
}

/// The launch description carries the encoder element with its property
/// text before `h264parse`, both `appsrc` caps, the AAC bitrate in bits/s,
/// and ends with the RTMP sink at the plan's URL.
pub proof fn launch_string_parts(plan: StreamPlan)
    ensures
        occurs(launch_spec(plan), encoder_stage(plan)),
        occurs(launch_spec(plan), "caps=\""@ + video_caps_spec(plan.w, plan.h, plan.fps) + "\""@),
        occurs(launch_spec(plan), "caps=\""@ + audio_caps_spec() + "\""@),
        occurs(launch_spec(plan), "voaacenc bitrate="@ + decimal(plan.a_kbps as nat * 1000)),
        ({
            let sink = "rtmp2sink location=\""@ + plan.rtmp_url@ + "\""@;
            &&& launch_spec(plan).len() >= sink.len()
            &&& launch_spec(plan).subrange(
                launch_spec(plan).len() - sink.len(),
                launch_spec(plan).len() as int,
            ) == sink
        }),
{
    let pre = launch_head(plan) + upload_stage(plan) + encoder_stage(plan);
    let l = launch_spec(plan);
    lemma_occurs_mid(launch_head(plan) + upload_stage(plan), encoder_stage(plan), launch_rest(plan));
    lemma_launch_video_caps(plan);
    lemma_launch_rest_parts(plan);
    assert(l =~= pre + launch_rest(plan));
    lemma_occurs_suffix(pre, launch_rest(plan), "caps=\""@ + audio_caps_spec() + "\""@);
    lemma_occurs_suffix(pre, launch_rest(plan), "voaacenc bitrate="@ + decimal(plan.a_kbps as nat * 1000));
    let sink = "rtmp2sink location=\""@ + plan.rtmp_url@ + "\""@;
    let r = launch_rest(plan);
    assert(l.subrange(l.len() - sink.len(), l.len() as int) =~= r.subrange(
        r.len() - sink.len(),
        r.len() as int,
    ));
}


/// No character of `s` is `c`.
pub open spec fn free_of(s: Seq<char>, c: char) -> bool {
    forall|i: int| 0 <= i < s.len() ==> s[i] != c
}

/// A text lacking one of the characters of `t` does not contain `t`.
proof fn lemma_free_no_occurs(s: Seq<char>, t: Seq<char>, k: int)
    requires
        0 <= k < t.len(),
        free_of(s, t[k]),
    ensures
        !occurs(s, t),
{
    if occurs(s, t) {
        let i = choose|i: int| 0 <= i && i + t.len() <= s.len() && #[trigger] s.subrange(i, i + t.len()) == t;
        assert(s.subrange(i, i + t.len())[k] == s[i + k]);
    }
}

/// Joining two texts that lack `t` with a character that `t` lacks gives a
/// text that lacks `t`: no occurrence can straddle the joint.
proof fn lemma_gap(a: Seq<char>, g: char, b: Seq<char>, t: Seq<char>)
    requires
        t.len() > 0,
        free_of(t, g),
        !occurs(a, t),
        !occurs(b, t),
    ensures
        !occurs(a + seq![g] + b, t),
{
    let s = a + seq![g] + b;
    if occurs(s, t) {
        let i = choose|i: int| 0 <= i && i + t.len() <= s.len() && #[trigger] s.subrange(i, i + t.len()) == t;
        if i + t.len() <= a.len() {
            assert(a.subrange(i, i + t.len()) =~= s.subrange(i, i + t.len()));
        } else if i > a.len() {
            let j = i - a.len() - 1;
            assert(b.subrange(j, j + t.len()) =~= s.subrange(i, i + t.len()));
        } else {
            let k = a.len() - i;
            assert(s[a.len() as int] == g);
            assert(s.subrange(i, i + t.len())[k] == s[a.len() as int]);
        }
    }
}

proof fn lemma_decimal_free(n: nat, c: char)
    requires
        (c as u32) < 48 || (c as u32) > 57,
    ensures
        free_of(decimal(n), c),
    decreases n,
{
    if n >= 10 {
        lemma_decimal_free(n / 10, c);
    }
}

proof fn lemma_head_free(plan: StreamPlan)
    ensures
        free_of(launch_head(plan) + " !"@, 'k'),
{
    reveal_strlit("appsrc name=video_src ");
    reveal_strlit("caps=\"");
    reveal_strlit("\"");
    reveal_strlit(" is-live=true format=time ! videoconvert ! videoscale ! \"video/x-raw,width=");
    reveal_strlit(",height=");
    reveal_strlit(",framerate=");
    reveal_strlit("/1\" ! ");
    reveal_strlit("queue ! videoconvert");
    reveal_strlit(" !");
    reveal_strlit("video/x-raw,format=BGRA,width=");
    reveal_strlit("/1");
    lemma_decimal_free(plan.w as nat, 'k');
    lemma_decimal_free(plan.h as nat, 'k');
    lemma_decimal_free(plan.fps as nat, 'k');
    assert(free_of(video_caps_spec(plan.w, plan.h, plan.fps), 'k'));
}

proof fn lemma_join_free(ps: Seq<(Seq<char>, Seq<char>)>, c: char)
    requires
        c != ' ',
        c != '=',
        forall|i: int| 0 <= i < ps.len() ==> free_of(#[trigger] ps[i].0, c) && free_of(ps[i].1, c),
    ensures
        free_of(join_props(ps), c),
    decreases ps.len(),
{
    reveal_strlit("=");
    reveal_strlit(" ");
    if ps.len() == 1 {
        assert(free_of(ps[0].0, c) && free_of(ps[0].1, c));
    } else if ps.len() > 1 {
        lemma_join_free(ps.drop_last(), c);
        assert(free_of(ps[ps.len() - 1].0, c) && free_of(ps[ps.len() - 1].1, c));
    }
}

proof fn lemma_props_free(s: EncoderSpec, element: Seq<char>, gop: nat, kbps: nat)
    ensures
        free_of(join_props(props_for_spec(s, element, gop, kbps)), 'v'),
{
    reveal_strlit("preset");
    reveal_strlit("hp");
    reveal_strlit("rc-mode");
    reveal_strlit("cbr");
    reveal_strlit("bitrate");
    reveal_strlit("gop-size");
    reveal_strlit("bframes");
    reveal_strlit("0");
    reveal_strlit("rc-lookahead");
    reveal_strlit("zerolatency");
    reveal_strlit("false");
    reveal_strlit("b-frames");
    reveal_strlit("rate-control");
    reveal_strlit("key-int-max");
    reveal_strlit("idr-period");
    reveal_strlit("cabac");
    reveal_strlit("true");
    reveal_strlit("pass");
    reveal_strlit("option-string");
    reveal_strlit("sliced-threads=1:sync-lookahead=0:scenecut=0");
    reveal_strlit("keyframe-period");
    lemma_decimal_free(gop, 'v');
    lemma_decimal_free(kbps, 'v');
    lemma_decimal_free(kbps * 1000, 'v');
    let ps = props_for_spec(s, element, gop, kbps);
    assert forall|i: int| 0 <= i < ps.len() implies free_of(#[trigger] ps[i].0, 'v') && free_of(ps[i].1, 'v') by {
    }
    lemma_join_free(ps, 'v');
}

/// The audio leg and the muxer after `h264parse`, up to the space before
/// the sink.
spec fn rest_before_sink(plan: StreamPlan) -> Seq<char> {
    "! h264parse"@ + audio_and_mux(plan)
}

proof fn lemma_rest_free(plan: StreamPlan)
    ensures
        free_of(rest_before_sink(plan), 'k'),
        free_of("rtmp2sink location="@, 'v'),
{
    reveal_strlit("! h264parse");
    reveal_strlit(" ! mux. appsrc name=audio_src ");
    reveal_strlit("caps=\"");
    reveal_strlit("\"");
    reveal_strlit("audio/x-raw,format=F32LE,layout=interleaved,rate=48000,channels=2");
    reveal_strlit(" is-live=true format=time ! audioconvert ! audioresample ! queue ! audioconvert ! ");
    reveal_strlit("voaacenc bitrate=");
    reveal_strlit(" ! aacparse ! mux. flvmux name=mux streamable=true !");
    reveal_strlit("rtmp2sink location=");
    lemma_decimal_free(plan.a_kbps as nat * 1000, 'k');
}

/// The audio leg and the muxer between the encoder stage and the sink.
spec fn audio_and_mux(plan: StreamPlan) -> Seq<char> {
    " ! mux. appsrc name=audio_src "@ + "caps=\""@ + audio_caps_spec() + "\""@
        + " is-live=true format=time ! audioconvert ! audioresample ! queue ! audioconvert ! "@
        + "voaacenc bitrate="@ + decimal(plan.a_kbps as nat * 1000)
        + " ! aacparse ! mux. flvmux name=mux streamable=true !"@
}

proof fn lemma_stage_cut(plan: StreamPlan)
    ensures
        encoder_stage(plan) =~= " !"@ + seq![' '] + plan.encoder_element@ + seq![' '] + join_props(
            props_for_spec(plan.encoder, plan.encoder_element@, plan.fps as nat * 2, plan.v_kbps as nat),
        ) + seq![' '] + "! h264parse"@,
{
    reveal_strlit(" ! ");
    reveal_strlit(" !");
    reveal_strlit(" ");
    reveal_strlit(" ! h264parse");
    reveal_strlit("! h264parse");
}

proof fn lemma_rest_cut(plan: StreamPlan)
    ensures
        launch_rest(plan) =~= audio_and_mux(plan) + seq![' '] + "rtmp2sink location="@ + seq!['"']
            + plan.rtmp_url@ + seq!['"'],
{
    reveal_strlit("\"");
    reveal_strlit(" ! aacparse ! mux. flvmux name=mux streamable=true ! ");
    reveal_strlit(" ! aacparse ! mux. flvmux name=mux streamable=true !");
    reveal_strlit("rtmp2sink location=\"");
    reveal_strlit("rtmp2sink location=");
}

proof fn lemma_queue_feeds(plan: StreamPlan)
    ensures
        occurs(launch_spec(plan), "queue ! videoconvert !"@),
{
    reveal_strlit(" ! vulkanupload");
    reveal_strlit(" ! ");
    reveal_strlit("queue ! videoconvert !");
    reveal_strlit("queue ! videoconvert");
    let pre = "appsrc name=video_src "@ + "caps=\""@ + video_caps_spec(plan.w, plan.h, plan.fps)
        + "\""@ + " is-live=true format=time ! videoconvert ! videoscale ! \"video/x-raw,width="@
        + decimal(plan.w as nat) + ",height="@ + decimal(plan.h as nat) + ",framerate="@ + decimal(
        plan.fps as nat,
    ) + "/1\" ! "@;
    let x = upload_stage(plan) + encoder_stage(plan) + launch_rest(plan);
    assert(x[0] == ' ' && x[1] == '!');
    assert("queue ! videoconvert"@ + x.take(2) =~= "queue ! videoconvert !"@);
    assert(launch_spec(plan) =~= pre + ("queue ! videoconvert"@ + x.take(2)) + x.skip(2));
    lemma_occurs_mid(pre, "queue ! videoconvert !"@, x.skip(2));
}

proof fn lemma_upload_in_vulkan(plan: StreamPlan)
    requires
        plan.encoder == EncoderSpec::Vulkan,
    ensures
        occurs(launch_spec(plan), "vulkanupload"@),
{
    reveal_strlit(" ! vulkanupload");
    reveal_strlit(" ! ");
    reveal_strlit("vulkanupload");
    let after = encoder_stage(plan) + launch_rest(plan);
    assert(launch_spec(plan) =~= (launch_head(plan) + " ! "@) + "vulkanupload"@ + after);
    lemma_occurs_mid(launch_head(plan) + " ! "@, "vulkanupload"@, after);
}

proof fn lemma_no_upload(plan: StreamPlan)
    requires
        plan.encoder != EncoderSpec::Vulkan,
        !occurs(plan.encoder_element@, "vulkanupload"@),
        !occurs(plan.rtmp_url@, "vulkanupload"@),
    ensures
        !occurs(launch_spec(plan), "vulkanupload"@),
{
    let t = "vulkanupload"@;
    reveal_strlit("vulkanupload");
    let el = plan.encoder_element@;
    let url = plan.rtmp_url@;
    let head = launch_head(plan) + " !"@;
    let props = join_props(
        props_for_spec(plan.encoder, el, plan.fps as nat * 2, plan.v_kbps as nat),
    );
    let sink = "rtmp2sink location="@;
    let mid = rest_before_sink(plan);
    lemma_stage_cut(plan);
    lemma_rest_cut(plan);
    // the description, cut at spaces and quotes that `t` lacks
    let z0 = url + seq!['"'] + Seq::<char>::empty();
    let z1 = sink + seq!['"'] + z0;
    let z2 = mid + seq![' '] + z1;
    let z3 = props + seq![' '] + z2;
    let z4 = el + seq![' '] + z3;
    let z5 = head + seq![' '] + z4;
    assert(upload_stage(plan) =~= Seq::<char>::empty());
    assert(launch_spec(plan) =~= z5);
    assert(free_of(t, '"') && free_of(t, ' '));
    assert(!occurs(Seq::<char>::empty(), t));
    lemma_gap(url, '"', Seq::empty(), t);
    lemma_rest_free(plan);
    lemma_free_no_occurs(sink, t, 0);
    lemma_gap(sink, '"', z0, t);
    lemma_free_no_occurs(mid, t, 3);
    lemma_gap(mid, ' ', z1, t);
    lemma_props_free(plan.encoder, el, plan.fps as nat * 2, plan.v_kbps as nat);
    lemma_free_no_occurs(props, t, 0);
    lemma_gap(props, ' ', z2, t);
    lemma_gap(el, ' ', z3, t);
    lemma_head_free(plan);
    lemma_free_no_occurs(head, t, 3);
    lemma_gap(head, ' ', z4, t);
}

/// The `vulkanupload` stage is in the launch description exactly for the
/// Vulkan encoder (where neither the element name nor the URL spells it
/// out themselves), and the queue with the tail converter always feeds the
/// next stage.
pub proof fn launch_upload_only_for_vulkan(plan: StreamPlan)
    requires
        !occurs(plan.encoder_element@, "vulkanupload"@),
        !occurs(plan.rtmp_url@, "vulkanupload"@),
    ensures
        occurs(launch_spec(plan), "vulkanupload"@) <==> plan.encoder == EncoderSpec::Vulkan,
        occurs(launch_spec(plan), "queue ! videoconvert !"@),
{
    lemma_queue_feeds(plan);
    if plan.encoder == EncoderSpec::Vulkan {
        lemma_upload_in_vulkan(plan);
    } else {
        lemma_no_upload(plan);
    }
}

} // verus!
