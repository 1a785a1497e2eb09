use ezstreamer_core::config::{validate_bitrate, validate_stream_key};
use ezstreamer_core::error::Error;
use ezstreamer_core::urls::{is_generic_key, playback_urls};

#[test]
fn playback_urls_follow_topaz_scheme() {
    let (pc, quest) = playback_urls("rtmp://topaz.chat/live", "my-key");
    assert_eq!(pc, "rtspt://topaz.chat/live/my-key");
    assert_eq!(quest, "rtsp://topaz.chat/live/my-key");
}

#[test]
fn playback_urls_tolerate_trailing_slash_and_plain_host() {
    let (pc, _) = playback_urls("rtmp://example.test/live/", "k");
    assert_eq!(pc, "rtspt://example.test/live/k");
    let (pc, _) = playback_urls("example.test/live", "k");
    assert_eq!(pc, "rtspt://example.test/live/k");
}

#[test]
fn generic_keys_are_flagged_case_insensitively() {
    assert!(is_generic_key("test"));
    assert!(is_generic_key("VRChat"));
    assert!(!is_generic_key("my-event-123"));
}

// ---- further cases of this library ----

#[test]
fn acceptance_key_gives_both_playback_urls() {
    let (pc, quest) = playback_urls("rtmp://topaz.chat/live", "test-key-123");
    assert_eq!(pc, "rtspt://topaz.chat/live/test-key-123");
    assert_eq!(quest, "rtsp://topaz.chat/live/test-key-123");
}

#[test]
fn only_rtmp_scheme_is_stripped_and_all_trailing_slashes_go() {
    let (pc, quest) = playback_urls("rtmps://h/live///", "k");
    assert_eq!(pc, "rtspt://rtmps://h/live/k");
    assert_eq!(quest, "rtsp://rtmps://h/live/k");
}

#[test]
fn generic_key_needs_whole_match() {
    assert!(!is_generic_key("tests"));
    assert!(is_generic_key("LIVE"));
    assert!(!is_generic_key(""));
}

#[test]
fn stream_key_rules() {
    assert_eq!(validate_stream_key("ok-key_1"), Ok(()));
    assert_eq!(
        validate_stream_key("ab"),
        Err(Error::StreamKey("stream key must be 3-64 characters".into()))
    );
    assert!(validate_stream_key(&"a".repeat(64)).is_ok());
    assert!(validate_stream_key(&"a".repeat(65)).is_err());
    assert_eq!(
        validate_stream_key("bad key!"),
        Err(Error::StreamKey(
            "stream key may contain only letters, digits, '-' and '_'".into()
        ))
    );
}

#[test]
fn bitrate_limits_are_inclusive() {
    assert_eq!(validate_bitrate(2000, 320), Ok(()));
    assert_eq!(validate_bitrate(2001, 320), Err(Error::BitrateOver { v_kbps: 2001, a_kbps: 320 }));
    assert_eq!(validate_bitrate(2000, 321), Err(Error::BitrateOver { v_kbps: 2000, a_kbps: 321 }));
}
