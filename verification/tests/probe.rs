use ezstreamer_core::gst::probe::{order_for_ui, probe_with_elements, runtime_missing_infos, usable_ids, EncoderInfo};
use ezstreamer_core::gst::{pick_best, probe_encoders, probe_with, AUTO_CANDIDATES, MANUAL_ENCODERS};

#[test]
fn empty_registry_means_software_only() {
    let infos = probe_with_elements(&[]);
    assert_eq!(pick_best(&infos), "libx264");
    assert!(infos.iter().find(|i| i.name == "libx264").unwrap().usable);
    assert!(!infos.iter().find(|i| i.name == "h264_nvenc").unwrap().usable);
}

#[test]
fn nvenc_wins_when_present() {
    let infos = probe_with_elements(&["nvh264enc", "x264enc", "vah264enc"]);
    assert_eq!(pick_best(&infos), "h264_nvenc");
    let ids = usable_ids(&infos);
    assert_eq!(ids[0], "h264_nvenc");
}

#[test]
fn qsv_beats_amf() {
    let infos = probe_with_elements(&["qsvh264enc", "amfh264enc", "x264enc"]);
    assert_eq!(pick_best(&infos), "h264_qsv");
}

#[test]
fn manual_list_contains_vulkan_but_auto_skips_it() {
    assert!(MANUAL_ENCODERS.contains(&"h264_vulkan"));
    assert!(!AUTO_CANDIDATES.contains(&"h264_vulkan"));
    let infos = probe_with_elements(&["vulkanh264enc"]);
    assert_eq!(pick_best(&infos), "libx264");
}

#[test]
fn probe_with_predicate_maps_elements_to_ui_ids() {
    let infos = probe_with(|e| e == "nvh264enc" || e == "x264enc");
    assert!(infos.iter().find(|i| i.name == "h264_nvenc").unwrap().usable);
    assert!(!infos.iter().find(|i| i.name == "h264_qsv").unwrap().usable);
    assert_eq!(pick_best(&infos), "h264_nvenc");
}

#[test]
fn probe_with_empty_predicate_still_offers_software() {
    let infos = probe_with(|_| false);
    assert_eq!(pick_best(&infos), "libx264");
}

// ---- further cases of this library ----

#[test]
fn probe_lists_every_id_in_ui_order_with_reasons() {
    let infos = probe_encoders();
    let names: Vec<&str> = infos.iter().map(|i| i.name.as_str()).collect();
    assert_eq!(
        names,
        vec!["h264_nvenc", "h264_qsv", "h264_amf", "h264_vaapi", "h264_vulkan", "libx264"]
    );
    for i in &infos[..5] {
        assert!(!i.usable);
        assert_eq!(i.reason.as_deref(), Some("GStreamer plugin not installed"));
    }
    assert_eq!(infos[5].reason, None);
}

#[test]
fn legacy_element_names_count_as_present() {
    let infos = probe_with_elements(&["nvenc_h264enc", "vaapih264enc"]);
    assert!(infos[0].usable);
    assert!(infos[3].usable);
    assert_eq!(infos[3].reason, None);
}

#[test]
fn usable_ids_orders_by_priority_then_original_order() {
    let info = |n: &str, u: bool| EncoderInfo { name: n.into(), usable: u, reason: None };
    let infos = vec![
        info("libx264", true),
        info("h264_vaapi", true),
        info("h264_vulkan", true),
        info("h264_qsv", true),
        info("h264_nvenc", false),
    ];
    assert_eq!(usable_ids(&infos), vec!["h264_qsv", "h264_vaapi", "libx264", "h264_vulkan"]);
    assert_eq!(pick_best(&infos), "h264_qsv");
}

#[test]
fn predicate_is_asked_about_every_candidate_element() {
    let asked = std::cell::RefCell::new(Vec::new());
    let _ = probe_with(|e| {
        asked.borrow_mut().push(e.to_string());
        false
    });
    assert_eq!(
        *asked.borrow(),
        vec![
            "x264enc",
            "openh264enc",
            "nvh264enc",
            "nvenc_h264enc",
            "qsvh264enc",
            "amfh264enc",
            "vah264enc",
            "vaapih264enc",
            "vulkanh264enc"
        ]
    );
}

#[test]
fn ui_order_follows_manual_list() {
    let infos = probe_with_elements(&["nvh264enc", "vulkanh264enc"]);
    let ordered = order_for_ui(&infos);
    let names: Vec<&str> = ordered.iter().map(|i| i.name.as_str()).collect();
    assert_eq!(
        names,
        vec!["libx264", "h264_nvenc", "h264_qsv", "h264_amf", "h264_vaapi", "h264_vulkan"]
    );
    assert!(ordered[1].usable && ordered[5].usable && !ordered[2].usable);
}

#[test]
fn ui_order_is_stable_and_puts_unknown_ids_last() {
    let mk = |n: &str, u: bool| EncoderInfo { name: n.into(), usable: u, reason: None };
    let infos = vec![mk("other", true), mk("h264_qsv", false), mk("libx264", true), mk("h264_qsv", true)];
    let ordered = order_for_ui(&infos);
    let view: Vec<(&str, bool)> = ordered.iter().map(|i| (i.name.as_str(), i.usable)).collect();
    assert_eq!(view, vec![("libx264", true), ("h264_qsv", false), ("h264_qsv", true), ("other", true)]);
}

#[test]
fn missing_runtime_reports_software_unusable() {
    let infos = runtime_missing_infos();
    assert_eq!(infos.len(), 1);
    assert_eq!(infos[0].name, "libx264");
    assert!(!infos[0].usable);
    assert_eq!(infos[0].reason.as_deref(), Some("GStreamer runtime not found"));
}
