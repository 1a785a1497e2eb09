use ezstreamer_core::config::{add_custom_profile, default_profiles, duplicate_profile, import_refusal, remove_profile};

#[test]
fn add_uses_the_first_free_custom_id() {
    let mut ps = default_profiles();
    let id = add_custom_profile(&mut ps);
    assert_eq!(id, "custom1");
    assert_eq!(ps.len(), 5);
    let (k, p) = ps.last().unwrap();
    assert_eq!(k, "custom1");
    assert_eq!(p.name, "Custom 1");
    assert_eq!((p.w, p.h, p.fps, p.v_kbps, p.a_kbps), (1280, 720, 30, 1500, 192));
    assert_eq!(p.encoder, "auto");
    assert!(p.warn.is_none());
    assert_eq!(add_custom_profile(&mut ps), "custom2");
    // a gap is filled first
    assert!(remove_profile(&mut ps, "custom1"));
    assert_eq!(add_custom_profile(&mut ps), "custom1");
    assert_eq!(add_custom_profile(&mut ps), "custom3");
}

#[test]
fn duplicate_appends_copy_suffix() {
    let mut ps = default_profiles();
    let k = duplicate_profile(&mut ps, "mid").unwrap();
    assert_eq!(k, "mid-copy1");
    let (key, copy) = ps.last().unwrap();
    assert_eq!(key, "mid-copy1");
    assert_eq!(copy.name, "中画質-copy1");
    assert_eq!((copy.w, copy.h, copy.fps, copy.v_kbps), (1280, 720, 30, 1500));
    assert_eq!(duplicate_profile(&mut ps, "mid").unwrap(), "mid-copy2");
    let hd = duplicate_profile(&mut ps, "1080p").unwrap();
    assert_eq!(hd, "1080p-copy1");
    assert_eq!(ps.last().unwrap().1.warn.as_deref(), Some("Topaz上限2000kのため720p推奨"));
    let before = ps.clone();
    assert_eq!(duplicate_profile(&mut ps, "nope"), None);
    assert_eq!(ps, before);
}

#[test]
fn builtins_cannot_be_deleted() {
    let mut ps = default_profiles();
    let before = ps.clone();
    assert!(!remove_profile(&mut ps, "mid"));
    assert!(!remove_profile(&mut ps, "nope"));
    assert_eq!(ps, before);
    add_custom_profile(&mut ps);
    duplicate_profile(&mut ps, "low").unwrap();
    assert!(remove_profile(&mut ps, "low-copy1"));
    assert!(ps.iter().all(|(k, _)| k != "low-copy1"));
    assert_eq!(ps.len(), 5);
    assert!(remove_profile(&mut ps, "custom1"));
    assert_eq!(ps, before);
}

#[test]
fn imports_without_profiles_are_refused() {
    assert_eq!(import_refusal(&Vec::new()), Some("profiles field missing".to_string()));
    assert_eq!(import_refusal(&default_profiles()), None);
}

#[test]
fn edits_keep_every_key_once() {
    let mut ps = default_profiles();
    add_custom_profile(&mut ps);
    add_custom_profile(&mut ps);
    duplicate_profile(&mut ps, "mid");
    duplicate_profile(&mut ps, "mid");
    remove_profile(&mut ps, "custom1");
    add_custom_profile(&mut ps);
    let mut keys: Vec<&str> = ps.iter().map(|(k, _)| k.as_str()).collect();
    assert_eq!(keys, ["low", "mid", "high", "1080p", "custom2", "mid-copy1", "mid-copy2", "custom1"]);
    keys.sort();
    keys.dedup();
    assert_eq!(keys.len(), ps.len());
}

#[test]
fn fresh_settings_start_on_mid_with_topaz_ingest() {
    let s = ezstreamer_core::config::Settings::defaults();
    assert_eq!(s.active_profile, "mid");
    assert_eq!(s.encoder_override, "auto");
    assert_eq!(s.ingest_url, "rtmp://topaz.chat/live");
    assert_eq!(s.last_stream_key, "");
    assert_eq!(s.locale, "ja");
    assert!(default_profiles().iter().any(|(k, _)| *k == s.active_profile));
}
