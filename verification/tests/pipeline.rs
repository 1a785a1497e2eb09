use ezstreamer_core::config::{default_profiles, Profile};
use ezstreamer_core::error::Error;
use ezstreamer_core::gst::pipeline::{resolve_encoder, validate_profile};
use ezstreamer_core::gst::{build_launch_string, build_plan, EncoderSpec};

fn mid() -> Profile {
    Profile {
        name: "mid".into(),
        w: 1280,
        h: 720,
        fps: 30,
        v_kbps: 1500,
        a_kbps: 192,
        encoder: "auto".into(),
        warn: None,
    }
}

fn avail() -> Vec<String> {
    vec!["h264_nvenc".into(), "libx264".into()]
}

#[test]
fn auto_prefers_nvenc_over_x264() {
    let p = build_plan(&mid(), "auto", &avail(), "rtmp://topaz.chat/live", "abc", None).unwrap();
    assert_eq!(p.encoder, EncoderSpec::Nvenc);
    assert_eq!(p.gop, 60);
    assert!(p.rtmp_url.ends_with("/abc"));
}

#[test]
fn manual_selection_is_used_as_is_per_design() {
    let p = build_plan(&mid(), "h264_vulkan", &[], "rtmp://topaz.chat/live", "abc", None).unwrap();
    assert_eq!(p.encoder, EncoderSpec::Vulkan);
    let p = build_plan(&mid(), "h264_qsv", &avail(), "rtmp://topaz.chat/live", "abc", None).unwrap();
    assert_eq!(p.encoder, EncoderSpec::Qsv);
}

#[test]
fn unknown_manual_id_is_rejected() {
    let err = build_plan(&mid(), "h264_nope", &avail(), "rtmp://topaz.chat/live", "abc", None)
        .unwrap_err();
    assert!(matches!(err, Error::EncoderNotAvailable(_)));
}

#[test]
fn empty_or_blank_override_means_auto() {
    for ov in ["", "   "] {
        let p = build_plan(&mid(), ov, &avail(), "rtmp://topaz.chat/live", "abc", None).unwrap();
        assert_eq!(p.encoder, EncoderSpec::Nvenc, "override {ov:?}");
    }
}

#[test]
fn invalid_profile_geometry_is_rejected_before_gst() {
    for bad in [
        Profile { fps: 0, ..mid() },
        Profile { w: 0, ..mid() },
        Profile { w: 1279, ..mid() },
        Profile { h: 721, ..mid() },
        Profile { w: 159, ..mid() },
        Profile { h: 126, ..mid() },
    ] {
        let err = build_plan(&bad, "auto", &avail(), "rtmp://topaz.chat/live", "abc", None)
            .unwrap_err();
        assert!(matches!(err, Error::Config(_)), "{bad:?} -> {err:?}");
    }
    let min = Profile { w: 160, h: 128, ..mid() };
    assert!(build_plan(&min, "auto", &avail(), "rtmp://topaz.chat/live", "abc", None).is_ok());
}

#[test]
fn builtin_profiles_pass_geometry_validation() {
    for (_, p) in default_profiles().iter() {
        build_plan(p, "auto", &avail(), "rtmp://topaz.chat/live", "abc", None)
            .unwrap_or_else(|e| panic!("builtin {}: {e:?}", p.name));
    }
}

#[test]
fn bitrate_guard_fires_before_gst() {
    let mut bad = mid();
    bad.v_kbps = 2500;
    let err =
        build_plan(&bad, "auto", &avail(), "rtmp://topaz.chat/live", "abc", None).unwrap_err();
    assert!(matches!(err, Error::BitrateOver { .. }));
}

#[test]
fn short_key_rejected() {
    let err =
        build_plan(&mid(), "auto", &avail(), "rtmp://topaz.chat/live", "ab", None).unwrap_err();
    assert!(matches!(err, Error::StreamKey(_)));
}

#[test]
fn invalid_chars_and_bad_ingest_rejected() {
    let err = build_plan(&mid(), "auto", &avail(), "rtmp://topaz.chat/live", "bad key!", None)
        .unwrap_err();
    assert!(matches!(err, Error::StreamKey(_)));
    let err = build_plan(&mid(), "auto", &avail(), "http://x/live", "abc", None).unwrap_err();
    assert!(matches!(err, Error::Config(_)));
}

#[test]
fn nvenc_props_have_no_bframes_and_cbr() {
    let props = EncoderSpec::Nvenc.gst_props(&mid());
    let get = |k: &str| props.iter().find(|(n, _)| n == k).map(|(_, v)| v.as_str());
    assert_eq!(get("bframes"), Some("0"));
    assert_eq!(get("rc-mode"), Some("cbr"));
    assert_eq!(get("preset"), Some("hp"));
    assert_ne!(get("preset"), Some("low-latency"));
    assert_ne!(get("preset"), Some("high-performance"));
    assert_eq!(get("rc-lookahead"), Some("0"));
    assert_eq!(get("zerolatency"), Some("false"));
}

#[test]
fn nvenc_preset_value_is_a_documented_nick() {
    const NVENC_PRESETS: &[&str] = &[
        "default",
        "hp",
        "hq",
        "low-latency",
        "low-latency-hq",
        "low-latency-hp",
        "lossless",
        "lossless-hp",
        "p1",
        "p2",
        "p3",
        "p4",
        "p5",
        "p6",
        "p7",
    ];
    let props = EncoderSpec::Nvenc.gst_props(&mid());
    let preset = props
        .iter()
        .find(|(k, _)| k == "preset")
        .map(|(_, v)| v.as_str())
        .expect("nvenc props carry a preset");
    assert!(NVENC_PRESETS.contains(&preset), "unknown GstNvEncoderPreset nick: {preset}");
}

#[test]
fn openh264enc_gets_bps_bitrate_and_gop() {
    let props = EncoderSpec::X264.gst_props_for("openh264enc", &mid());
    let get = |k: &str| props.iter().find(|(n, _)| n == k).map(|(_, v)| v.as_str());
    assert_eq!(get("bitrate"), Some("1500000"));
    assert_eq!(get("rate-control"), Some("bitrate"));
    assert_eq!(get("gop-size"), Some("60"));
    assert_eq!(get("key-int-max"), None);
    assert_eq!(get("option-string"), None);
    let x264 = EncoderSpec::X264.gst_props_for("x264enc", &mid());
    assert!(x264.iter().any(|(k, v)| k == "bitrate" && v == "1500"));
    assert!(x264.iter().any(|(k, _)| k == "pass"));
}

#[test]
fn qsv_and_amf_use_hyphenated_b_frames() {
    for (spec, element) in [(EncoderSpec::Qsv, "qsvh264enc"), (EncoderSpec::Amf, "amfh264enc")] {
        let props = spec.gst_props_for(element, &mid());
        let get = |k: &str| props.iter().find(|(n, _)| n == k).map(|(_, v)| v.as_str());
        assert_eq!(get("b-frames"), Some("0"), "{element}");
        assert_eq!(get("bframes"), None, "{element} has no bframes property");
        assert_eq!(get("rate-control"), Some("cbr"), "{element}");
    }
}

#[test]
fn vaapi_legacy_element_gets_legacy_dialect() {
    let legacy = EncoderSpec::Vaapi.gst_props_for("vaapih264enc", &mid());
    let get = |k: &str| legacy.iter().find(|(n, _)| n == k).map(|(_, v)| v.as_str());
    assert_eq!(get("keyframe-period"), Some("60"));
    assert_eq!(get("bframes"), Some("0"));
    assert_eq!(get("key-int-max"), None);
    let modern = EncoderSpec::Vaapi.gst_props_for("vah264enc", &mid());
    let get = |k: &str| modern.iter().find(|(n, _)| n == k).map(|(_, v)| v.as_str());
    assert_eq!(get("key-int-max"), Some("60"));
    assert_eq!(get("b-frames"), Some("0"));
    assert_eq!(get("keyframe-period"), None);
}

#[test]
fn launch_string_props_are_valid_for_the_named_element() {
    for id in ["h264_qsv", "h264_amf", "h264_vaapi", "h264_vulkan"] {
        let p = build_plan(&mid(), id, &[], "rtmp://topaz.chat/live", "k123", None).unwrap();
        let s = build_launch_string(&p);
        assert!(!s.contains("keyframe-period"), "{id}: {s}");
        assert!(!s.contains("bframes="), "{id}: {s}");
        assert!(s.contains("b-frames=0"), "{id}: {s}");
    }
    for id in ["libx264", "h264_nvenc", "h264_qsv", "h264_amf", "h264_vaapi", "h264_vulkan"] {
        let p = build_plan(&mid(), id, &[], "rtmp://topaz.chat/live", "k123", None).unwrap();
        let s = build_launch_string(&p);
        assert!(!s.contains("profile="), "{id}: {s}");
    }
    let p = build_plan(&mid(), "h264_vulkan", &[], "rtmp://topaz.chat/live", "k123", None).unwrap();
    let s = build_launch_string(&p);
    assert!(s.contains("idr-period=60"), "{s}");
    let p = build_plan(&mid(), "h264_vaapi", &[], "rtmp://topaz.chat/live", "k123", None).unwrap();
    let s = build_launch_string(&p);
    assert!(s.contains("key-int-max=60"), "{s}");
}

#[test]
fn x264_props_avoid_zerolatency_tune() {
    let s = build_launch_string(
        &build_plan(&mid(), "libx264", &["libx264".into()], "rtmp://topaz.chat/live", "k123", None)
            .unwrap(),
    );
    assert!(!s.contains("zerolatency"), "Topaz gray-screen regression");
    assert!(s.contains("scenecut=0"));
    assert!(s.contains("flvmux"));
    assert!(s.contains("rtmp2sink"));
}

#[test]
fn launch_string_pins_profile_geometry() {
    let p = build_plan(&mid(), "auto", &avail(), "rtmp://topaz.chat/live", "k123", None).unwrap();
    let s = build_launch_string(&p);
    assert!(s.contains("width=1280"));
    assert!(s.contains("framerate=30/1"));
    assert!(s.contains("F32LE,layout=interleaved,rate=48000"));
}

#[test]
fn vulkan_props_request_cbr_with_idr_gop() {
    let props = EncoderSpec::Vulkan.gst_props(&mid());
    let get = |k: &str| props.iter().find(|(n, _)| n == k).map(|(_, v)| v.as_str());
    assert_eq!(get("bitrate"), Some("1500"));
    assert_eq!(get("rate-control"), Some("cbr"));
    assert_eq!(get("idr-period"), Some("60"));
    assert_eq!(get("b-frames"), Some("0"));
}

#[test]
fn vulkan_launch_string_inserts_upload_after_tail_convert() {
    let p = build_plan(&mid(), "h264_vulkan", &[], "rtmp://topaz.chat/live", "k123", None).unwrap();
    assert!(p.video_caps().contains("format=BGRA"));
    let s = build_launch_string(&p);
    assert!(s.contains("queue ! videoconvert ! vulkanupload ! vulkanh264enc"));
}

#[test]
fn non_vulkan_launch_string_has_no_upload() {
    let p = build_plan(&mid(), "auto", &avail(), "rtmp://topaz.chat/live", "k123", None).unwrap();
    let s = build_launch_string(&p);
    assert!(!s.contains("vulkanupload"));
    assert!(s.contains("queue ! videoconvert !"));
}

// ---- further cases of this library ----

#[test]
fn launch_string_is_exact_for_x264() {
    let p = build_plan(&mid(), "libx264", &[], "rtmp://topaz.chat/live/", " k123 ", None).unwrap();
    assert_eq!(p.rtmp_url, "rtmp://topaz.chat/live/k123");
    assert_eq!(p.encoder_element, "x264enc");
    assert_eq!(
        build_launch_string(&p),
        "appsrc name=video_src caps=\"video/x-raw,format=BGRA,width=1280,height=720,framerate=30/1\" \
         is-live=true format=time ! videoconvert ! videoscale ! \"video/x-raw,width=1280,height=720,\
         framerate=30/1\" ! queue ! videoconvert ! x264enc bitrate=1500 key-int-max=60 bframes=0 \
         cabac=true pass=cbr option-string=sliced-threads=1:sync-lookahead=0:scenecut=0 ! h264parse \
         ! mux. appsrc name=audio_src caps=\"audio/x-raw,format=F32LE,layout=interleaved,rate=48000,\
         channels=2\" is-live=true format=time ! audioconvert ! audioresample ! queue ! audioconvert \
         ! voaacenc bitrate=192000 ! aacparse ! mux. flvmux name=mux streamable=true ! rtmp2sink \
         location=\"rtmp://topaz.chat/live/k123\""
    );
}

#[test]
fn preferred_element_overrides_first_candidate() {
    let p = build_plan(&mid(), "libx264", &[], "rtmps://x/live", "abc", Some("openh264enc"))
        .unwrap();
    assert_eq!(p.encoder_element, "openh264enc");
    let s = build_launch_string(&p);
    assert!(s.contains("openh264enc bitrate=1500000 rate-control=bitrate gop-size=60 !"), "{s}");
}

#[test]
fn geometry_messages_name_the_problem() {
    match validate_profile(&Profile { fps: 0, ..mid() }) {
        Err(Error::Config(m)) => assert_eq!(m, "profile fps must be >= 1 (got 0)"),
        other => panic!("{other:?}"),
    }
    match validate_profile(&Profile { w: 1279, ..mid() }) {
        Err(Error::Config(m)) => {
            assert_eq!(m, "profile dimensions must be positive even numbers (got 1279x720)")
        }
        other => panic!("{other:?}"),
    }
    match validate_profile(&Profile { w: 158, h: 720, ..mid() }) {
        Err(Error::Config(m)) => {
            assert_eq!(m, "profile 158x720 is below the minimum encoder size 160x128")
        }
        other => panic!("{other:?}"),
    }
}

#[test]
fn bad_ingest_message_quotes_the_url() {
    match build_plan(&mid(), "auto", &avail(), "http://x/live", "abc", None) {
        Err(Error::Config(m)) => {
            assert_eq!(m, "ingest URL must start with rtmp:// or rtmps://: http://x/live")
        }
        other => panic!("{other:?}"),
    }
}

#[test]
fn bitrate_error_carries_both_rates() {
    let bad = Profile { a_kbps: 321, ..mid() };
    let err = build_plan(&bad, "auto", &avail(), "rtmp://x/live", "abc", None).unwrap_err();
    assert_eq!(err, Error::BitrateOver { v_kbps: 1500, a_kbps: 321 });
}

#[test]
fn auto_falls_back_to_x264_and_skips_vulkan() {
    assert_eq!(resolve_encoder("auto", &[]).unwrap(), EncoderSpec::X264);
    assert_eq!(resolve_encoder(" auto ", &["h264_vulkan".to_string()]).unwrap(), EncoderSpec::X264);
    assert_eq!(
        resolve_encoder("", &["h264_vaapi".to_string(), "h264_amf".to_string()]).unwrap(),
        EncoderSpec::Amf
    );
    assert_eq!(
        resolve_encoder(" h264_bogus ", &[]),
        Err(Error::EncoderNotAvailable("h264_bogus".into()))
    );
}

#[test]
fn ids_round_trip() {
    for s in [
        EncoderSpec::Nvenc,
        EncoderSpec::Qsv,
        EncoderSpec::Amf,
        EncoderSpec::Vaapi,
        EncoderSpec::Vulkan,
        EncoderSpec::X264,
    ] {
        assert_eq!(EncoderSpec::from_id(s.id()), Some(s));
        assert!(!s.gst_elements().is_empty());
        assert_eq!(s.needs_vulkan_upload(), s == EncoderSpec::Vulkan);
    }
    assert_eq!(EncoderSpec::from_id("auto"), None);
    assert_eq!(EncoderSpec::Nvenc.gst_elements(), vec!["nvh264enc", "nvenc_h264enc"]);
}

#[test]
fn launch_string_stage_order() {
    let p = build_plan(&mid(), "h264_vulkan", &[], "rtmp://topaz.chat/live", "abc", None).unwrap();
    let s = build_launch_string(&p);
    assert!(s.contains("queue ! videoconvert ! vulkanupload ! vulkanh264enc "));
    assert!(s.ends_with("rtmp2sink location=\"rtmp://topaz.chat/live/abc\""));
    assert!(s.contains(&format!("caps=\"{}\"", p.video_caps())));
    assert!(s.contains(&format!("caps=\"{}\"", p.audio_caps())));
    let q = build_plan(&mid(), "libx264", &[], "rtmp://topaz.chat/live", "abc", None).unwrap();
    let t = build_launch_string(&q);
    assert!(t.contains("queue ! videoconvert ! x264enc "));
    assert!(!t.contains("vulkanupload"));
    assert!(t.contains(&format!("voaacenc bitrate={}", q.a_kbps * 1000)));
}

#[test]
fn huge_fps_still_reports_earlier_errors() {
    let mut p = mid();
    p.fps = u32::MAX;
    p.v_kbps = 2500;
    let err = build_plan(&p, "auto", &avail(), "rtmp://topaz.chat/live", "abc", None).unwrap_err();
    assert_eq!(format!("{err:?}"), format!("{:?}", ezstreamer_core::error::Error::BitrateOver { v_kbps: 2500, a_kbps: 192 }));
    p.v_kbps = 1500;
    assert!(build_plan(&p, "auto", &avail(), "rtmp://topaz.chat/live", "a b", None).is_err());
}

#[test]
fn other_elements_keep_the_encoder_dialect() {
    for (spec, element) in [
        (EncoderSpec::X264, "x264enc"),
        (EncoderSpec::Vaapi, "vah264enc"),
        (EncoderSpec::Nvenc, "openh264enc"),
        (EncoderSpec::X264, "vaapih264enc"),
    ] {
        assert_eq!(spec.gst_props_for(element, &mid()), spec.gst_props(&mid()), "{element}");
    }
    assert_ne!(
        EncoderSpec::X264.gst_props_for("openh264enc", &mid()),
        EncoderSpec::X264.gst_props(&mid())
    );
}

#[test]
fn launch_string_has_upload_exactly_for_vulkan() {
    for (ov, element) in [
        ("h264_vulkan", "vulkanh264enc"),
        ("libx264", "x264enc"),
        ("h264_nvenc", "nvh264enc"),
        ("h264_vaapi", "vah264enc"),
    ] {
        let plan = build_plan(&mid(), ov, &[], "rtmp://topaz.chat/live", "abc", Some(element)).unwrap();
        let s = build_launch_string(&plan);
        assert_eq!(s.contains("vulkanupload"), ov == "h264_vulkan", "{s}");
        assert!(s.contains("queue ! videoconvert !"), "{s}");
    }
}
