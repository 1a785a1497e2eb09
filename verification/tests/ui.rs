use ezstreamer_core::config::default_profiles;
use ezstreamer_core::ui::i18n::{interpolate, parse_json, replace_str, split_key, I18n, JsonNode, Locale};
use ezstreamer_core::ui::state::{key_error, profile_ids, toggle_app, AudioMode, Tab, BUILTIN_PROFILE_IDS};
use ezstreamer_core::urls::is_generic_key;

#[test]
fn locale_codes_roundtrip() {
    assert_eq!(Locale::Ja.code(), "ja");
    assert_eq!(Locale::En.code(), "en");
    assert_eq!(Locale::from_code("ja"), Some(Locale::Ja));
    assert_eq!(Locale::from_code("en"), Some(Locale::En));
    assert_eq!(Locale::from_code("fr"), None);
    assert_eq!(Locale::from_code(""), None);
    assert_eq!(Locale::from_code(Locale::En.code()), Some(Locale::En));
}

#[test]
fn locale_toggle_flips_and_label_is_code() {
    assert_eq!(Locale::Ja.toggled(), Locale::En);
    assert_eq!(Locale::En.toggled(), Locale::Ja);
    assert_eq!(Locale::Ja.toggled().toggled(), Locale::Ja);
    assert_eq!(Locale::Ja.label(), "ja");
    assert_eq!(Locale::En.label(), "en");
}

#[test]
fn tabs_have_step_title_keys() {
    let all = Tab::all();
    assert_eq!(all, [Tab::Screen, Tab::Audio, Tab::Output]);
    assert_eq!(Tab::Screen.title_key(), "steps.screen");
    assert_eq!(Tab::Audio.title_key(), "steps.audio");
    assert_eq!(Tab::Output.title_key(), "steps.output");
}

#[test]
fn audio_mode_names_and_restore_rule() {
    assert_eq!(AudioMode::System.as_str(), "system");
    assert_eq!(AudioMode::Apps.as_str(), "apps");
    assert_eq!(AudioMode::for_selected_apps(&vec![]), AudioMode::System);
    assert_eq!(AudioMode::for_selected_apps(&vec!["pw:1".to_string()]), AudioMode::Apps);
}

#[test]
fn key_error_matches_backend_rules() {
    assert_eq!(key_error(""), Some("stream.keyRequired"));
    assert_eq!(key_error("ab"), Some("stream.keyInvalid"));
    assert_eq!(key_error("ok-key_1"), None);
    assert!(!is_generic_key("ok-key_1"));
    assert!(is_generic_key("test"));
}

#[test]
fn key_error_flags_bad_characters_and_length() {
    assert_eq!(key_error("bad key"), Some("stream.keyInvalid"));
    assert_eq!(key_error(&"k".repeat(65)), Some("stream.keyInvalid"));
    assert_eq!(key_error(&"k".repeat(64)), None);
}

#[test]
fn builtin_profiles_come_first() {
    // A profile map orders its ids; the built-ins plus one custom profile.
    let mut ids: Vec<String> = default_profiles().into_iter().map(|(id, _)| id).collect();
    ids.push("custom1".to_string());
    ids.sort();
    assert_eq!(
        profile_ids(&ids),
        vec!["low", "mid", "high", "1080p", "custom1"]
            .into_iter()
            .map(String::from)
            .collect::<Vec<_>>()
    );
}

#[test]
fn profile_ids_skip_missing_builtins_and_keep_custom_order() {
    let ids: Vec<String> = vec!["zeta", "high", "alpha", "low"].into_iter().map(String::from).collect();
    assert_eq!(profile_ids(&ids), vec!["low", "high", "zeta", "alpha"]);
    assert!(profile_ids(&vec![]).is_empty());
    assert_eq!(BUILTIN_PROFILE_IDS, ["low", "mid", "high", "1080p"]);
}

#[test]
fn toggle_app_adds_then_removes() {
    let mut apps: Vec<String> = vec!["pw:1".into(), "pw:2".into()];
    toggle_app(&mut apps, "pw:3");
    assert_eq!(apps, vec!["pw:1", "pw:2", "pw:3"]);
    toggle_app(&mut apps, "pw:1");
    assert_eq!(apps, vec!["pw:2", "pw:3"]);
    toggle_app(&mut apps, "pw:1");
    assert_eq!(apps, vec!["pw:2", "pw:3", "pw:1"]);
}

#[test]
fn toggle_removes_only_the_first_duplicate() {
    let mut apps: Vec<String> = vec!["a".into(), "b".into(), "a".into()];
    toggle_app(&mut apps, "a");
    assert_eq!(apps, vec!["b", "a"]);
}

#[test]
fn interpolation_replaces_placeholders() {
    assert_eq!(interpolate("再接続中 {{n}}/3", &[("n", "2")]), "再接続中 2/3");
    assert_eq!(
        interpolate("Reconnecting {{n}}/{{max}}", &[("n", "1"), ("max", "3")]),
        "Reconnecting 1/3"
    );
    assert_eq!(interpolate("{{a}}{{a}} {{b}}", &[("a", "x")]), "xx {{b}}");
    assert_eq!(interpolate("no args", &[]), "no args");
}

#[test]
fn replace_matches_std_replace() {
    for (s, p, r) in [
        ("aaaa", "aa", "b"),
        ("abcabc", "bc", ""),
        ("", "x", "y"),
        ("x", "xx", "y"),
        ("{{n}}{{n}}", "{{n}}", "7"),
        ("ababa", "aba", "Z"),
    ] {
        assert_eq!(replace_str(s, p, r), s.replace(p, r), "{s} / {p} / {r}");
    }
}

const JA: &str = r#"{"steps":{"screen":"画面"},"stream":{"retrying":"再接続中 {{n}}/3"},"only":{"ja":"日本語"},"count":3}"#;
const EN: &str = r#"{"steps":{"screen":"Screen"},"stream":{"retrying":"Reconnecting {{n}}/3"}}"#;

fn catalogs(locale: Locale) -> I18n {
    I18n::from_json(locale, JA, EN).expect("both locale files are JSON")
}

#[test]
fn translates_and_interpolates() {
    let i18n = catalogs(Locale::Ja);
    assert_eq!(i18n.t("steps.screen"), "画面");
    let text = i18n.tf("stream.retrying", &[("n", "2")]);
    assert_eq!(text, "再接続中 2/3");
    let en = catalogs(Locale::En);
    assert_eq!(en.t("steps.screen"), "Screen");
    assert_eq!(en.t("missing.key"), "missing.key");
}

#[test]
fn missing_keys_fall_back_to_the_other_language() {
    let mut i18n = catalogs(Locale::En);
    assert_eq!(i18n.t("only.ja"), "日本語");
    assert_eq!(i18n.locale(), Locale::En);
    i18n.set_locale(Locale::Ja);
    assert_eq!(i18n.locale(), Locale::Ja);
    assert_eq!(i18n.tf("stream.retrying", &[("n", "1")]), "再接続中 1/3");
}

#[test]
fn only_texts_at_the_end_of_the_path_translate() {
    let i18n = catalogs(Locale::Ja);
    // an object, a number, a path through a text, and an empty part
    assert_eq!(i18n.t("steps"), "steps");
    assert_eq!(i18n.t("count"), "count");
    assert_eq!(i18n.t("steps.screen.more"), "steps.screen.more");
    assert_eq!(i18n.t("steps..screen"), "steps..screen");
    assert_eq!(i18n.t(""), "");
}

#[test]
fn locale_files_that_are_not_json_are_refused() {
    assert!(I18n::from_json(Locale::Ja, "{", EN).is_none());
    assert!(I18n::from_json(Locale::Ja, JA, "not json").is_none());
    assert!(I18n::from_json(Locale::En, "{}", "[]").is_some());
}

#[test]
fn parsed_files_keep_texts_and_objects() {
    match parse_json(r#"{"a":{"b":"x"},"n":1}"#) {
        Some(JsonNode::Obj(entries)) => {
            assert_eq!(entries.len(), 2);
            assert_eq!(entries[0].0, "a");
            match &entries[0].1 {
                JsonNode::Obj(inner) => {
                    assert_eq!(inner[0].0, "b");
                    assert!(matches!(&inner[0].1, JsonNode::Str(s) if s == "x"));
                }
                other => panic!("{other:?}"),
            }
            assert!(matches!(entries[1].1, JsonNode::Other));
        }
        other => panic!("{other:?}"),
    }
    assert!(matches!(parse_json(r#""t""#), Some(JsonNode::Str(s)) if s == "t"));
    assert!(parse_json("{,}").is_none());
}

#[test]
fn keys_split_at_every_dot() {
    assert_eq!(split_key("a.b"), vec!["a", "b"]);
    assert_eq!(split_key(""), vec![""]);
    assert_eq!(split_key("a..b."), vec!["a", "", "b", ""]);
    assert_eq!(split_key("a..b."), "a..b.".split('.').collect::<Vec<_>>());
}

#[test]
fn os_locale_names_pick_the_language() {
    assert_eq!(Locale::from_locale_name("ja-JP"), Locale::Ja);
    assert_eq!(Locale::from_locale_name("JA_jp"), Locale::Ja);
    assert_eq!(Locale::from_locale_name("en-US"), Locale::En);
    assert_eq!(Locale::from_locale_name("j"), Locale::En);
}

#[test]
fn first_set_locale_variable_decides() {
    assert_eq!(Locale::from_env(&[None, None, Some("ja_JP.UTF-8")]), Locale::Ja);
    assert_eq!(Locale::from_env(&[Some("C"), None, Some("ja_JP.UTF-8")]), Locale::En);
    assert_eq!(Locale::from_env(&[Some(""), Some("ja"), None]), Locale::Ja);
    assert_eq!(Locale::from_env(&[None, None, None]), Locale::En);
    assert_eq!(Locale::from_env(&[Some(""), Some(""), Some("")]), Locale::En);
}
