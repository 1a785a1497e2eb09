use ezstreamer_core::capture::linux::{audio_capture_plan, audio_source_specs};
use ezstreamer_core::capture::preview::{data_url_from_base64, encode_png, png_data_url, preview_data_url};
use ezstreamer_core::capture::{linux, stub, CaptureError};

#[test]
fn capture_error_messages() {
    assert_eq!(
        CaptureError::NotAvailable.message(),
        "capture backend requires Windows or Linux (this build is a stub)"
    );
    assert_eq!(CaptureError::Failed("boom".into()).message(), "capture failed: boom");
}

#[test]
fn stub_backend_enumerates_nothing() {
    assert_eq!(stub::list_displays(), Err(CaptureError::NotAvailable));
    assert_eq!(stub::list_windows(), Err(CaptureError::NotAvailable));
    assert_eq!(stub::list_audio_devices(), Err(CaptureError::NotAvailable));
}

#[test]
fn portal_backend_lists_no_screens() {
    assert_eq!(linux::list_displays(), Ok(vec![]));
    assert_eq!(linux::list_windows(), Ok(vec![]));
}

fn s(v: &str) -> String {
    v.to_string()
}

#[test]
fn system_mode_with_default_mic() {
    let specs = audio_source_specs("system", &vec![], true, "default");
    assert_eq!(specs, vec![(s("system"), None, true), (s("__mic__"), None, false)]);
    let specs = audio_source_specs("system", &vec![], true, "");
    assert_eq!(specs[1], (s("__mic__"), None, false));
}

#[test]
fn mic_device_targets_bare_node() {
    let specs = audio_source_specs("system", &vec![], true, "pw:42");
    assert_eq!(specs[1], (s("__mic__"), Some(s("42")), false));
    let specs = audio_source_specs("none", &vec![], true, "57");
    assert_eq!(specs, vec![(s("__mic__"), Some(s("57")), false)]);
    let specs = audio_source_specs("system", &vec![], false, "pw:42");
    assert_eq!(specs, vec![(s("system"), None, true)]);
}

#[test]
fn apps_mode_targets_each_app_node() {
    let apps = vec![s("pw:12"), s("pw:"), s("a:b:34"), s("77")];
    let specs = audio_source_specs("apps", &apps, false, "default");
    assert_eq!(
        specs,
        vec![
            (s("pw:12"), Some(s("12")), false),
            (s("a:b:34"), Some(s("34")), false),
            (s("77"), Some(s("77")), false),
        ]
    );
    // apps are ignored outside apps mode
    assert!(audio_source_specs("system", &apps, false, "").len() == 1);
}

#[test]
fn empty_selection_is_refused() {
    let err = audio_capture_plan("apps", &vec![s("pw:")], false, "default").unwrap_err();
    assert_eq!(err, CaptureError::Failed(s("no audio source selected")));
    assert_eq!(audio_capture_plan("system", &vec![], false, "").unwrap().len(), 1);
}

#[test]
fn png_encoding_needs_a_full_buffer() {
    assert!(encode_png(&[0u8; 15], 2, 2).is_none());
    let png = encode_png(&[255u8; 16], 2, 2).unwrap();
    assert_eq!(&png[..8], &[0x89, b'P', b'N', b'G', 0x0D, 0x0A, 0x1A, 0x0A]);
    // bytes past w*h*4 are not read
    let mut longer = vec![255u8; 16];
    longer.extend_from_slice(&[1, 2, 3]);
    assert_eq!(encode_png(&longer, 2, 2).unwrap(), png);
}

#[test]
fn data_url_wraps_base64() {
    assert_eq!(data_url_from_base64("QUJD"), "data:image/png;base64,QUJD");
    assert_eq!(png_data_url(b"ABC"), "data:image/png;base64,QUJD");
    assert_eq!(png_data_url(b"AB"), "data:image/png;base64,QUI=");
    assert_eq!(png_data_url(b""), "data:image/png;base64,");
    assert_eq!(png_data_url(b"A"), "data:image/png;base64,QQ==");
    assert_eq!(png_data_url(b"hello world~"), "data:image/png;base64,aGVsbG8gd29ybGR+");
    assert_eq!(png_data_url(&[0xfb, 0xff, 0x00, 0x3e]), "data:image/png;base64,+/8APg==");
}

#[test]
fn preview_is_a_png_data_url() {
    let frame = vec![10u8; 320 * 180 * 4];
    let url = preview_data_url(&frame, 320, 180).unwrap();
    assert!(url.starts_with("data:image/png;base64,iVBORw0KGgo"));
    let b64 = &url["data:image/png;base64,".len()..];
    assert_eq!(b64.len() % 4, 0);
    // an unusable source still previews (opaque black letterbox)
    assert!(preview_data_url(&[], 0, 0).is_some());
    assert!(encode_png(&[0u8; 4], 0, 1).is_none());
}
