use ezstreamer_core::capture::windows::{
    app_pids, check_float_format, check_sources, describe_format, parse_u32, stale_app_message,
    WaveFormat, WAVE_FORMAT_EXTENSIBLE, WAVE_FORMAT_IEEE_FLOAT,
};
use ezstreamer_core::capture::CaptureError;

#[test]
fn pid_parsing_matches_std() {
    for s in [
        "0", "42", "+7", "4294967295", "4294967296", "99999999999", "", "+", "-1", "12a", " 1",
        "007", "++1", "１",
    ] {
        assert_eq!(parse_u32(s), s.parse::<u32>().ok(), "{s:?}");
    }
}

#[test]
fn app_ids_become_pids_in_apps_mode_only() {
    let apps: Vec<String> = vec!["pid:1234".into(), "chrome:pid:77".into(), "pw:x".into(), "55".into()];
    assert_eq!(app_pids("apps", &apps), vec![1234, 77, 55]);
    assert!(app_pids("system", &apps).is_empty());
}

#[test]
fn stale_app_and_empty_selection_messages() {
    assert_eq!(stale_app_message(4242), "audio app (pid:4242) is no longer running; reselect it");
    assert_eq!(
        check_sources("apps", false, &vec![]),
        Err(CaptureError::Failed(
            "no audio source selected (selected apps are no longer running?)".into()
        ))
    );
    assert!(check_sources("system", false, &vec![]).is_ok());
    assert!(check_sources("apps", true, &vec![]).is_ok());
    assert!(check_sources("apps", false, &vec![3]).is_ok());
}

fn fmt(tag: u16, bits: u16, cb_size: u16, data1: u32) -> WaveFormat {
    WaveFormat { tag, channels: 2, rate: 48000, bits, cb_size, subformat_data1: data1 }
}

#[test]
fn format_description() {
    assert_eq!(describe_format(None), "null");
    assert_eq!(
        describe_format(Some(fmt(WAVE_FORMAT_IEEE_FLOAT, 32, 0, 0))),
        "tag=0x0003 ch=2 rate=48000 bits=32 cbSize=0"
    );
    assert_eq!(
        describe_format(Some(fmt(WAVE_FORMAT_EXTENSIBLE, 32, 22, 3))),
        "tag=0xfffe ch=2 rate=48000 bits=32 cbSize=22 subfmt_data1=3"
    );
    assert_eq!(format!("tag={:#06x}", 0xfffeu16), "tag=0xfffe");
}

#[test]
fn only_float32_mix_formats_pass() {
    assert!(check_float_format(Some(fmt(WAVE_FORMAT_IEEE_FLOAT, 32, 0, 0)), "render").is_ok());
    assert!(check_float_format(Some(fmt(WAVE_FORMAT_EXTENSIBLE, 32, 22, 3)), "render").is_ok());
    assert_eq!(
        check_float_format(Some(fmt(WAVE_FORMAT_EXTENSIBLE, 32, 22, 1)), "mic"),
        Err(CaptureError::Failed("unsupported WASAPI mix format (mic): expected 32-bit float".into()))
    );
    assert!(check_float_format(Some(fmt(WAVE_FORMAT_EXTENSIBLE, 32, 21, 3)), "x").is_err());
    assert!(check_float_format(Some(fmt(WAVE_FORMAT_IEEE_FLOAT, 16, 0, 0)), "x").is_err());
    assert_eq!(
        check_float_format(None, "x"),
        Err(CaptureError::Failed("WASAPI mix format is null".into()))
    );
}
