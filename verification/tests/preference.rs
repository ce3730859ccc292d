use konoasset::preference::{
    default_device_name, device_name_from_host, language_for_locale, resolve_preference_store,
    LanguageCode, PreferenceStore, Theme, UpdateChannel,
};
use uuid::Uuid;

fn store() -> PreferenceStore {
    PreferenceStore::with_environment("pref.json".into(), "data".into(), Some("ja-JP".into()), 5, Some("host".into()))
}

#[test]
fn update_channel_names() {
    assert_eq!(UpdateChannel::Stable.as_str(), "stable");
    assert_eq!(UpdateChannel::PreRelease.as_str(), "pre-release");
}

#[test]
fn language_codes() {
    assert_eq!(LanguageCode::JaJp.code(), "ja-JP");
    assert_eq!(LanguageCode::EnUs.code(), "en-US");
    assert_eq!(LanguageCode::EnGb.code(), "en-GB");
    assert_eq!(LanguageCode::ZhCn.code(), "zh-CN");
    assert_eq!(LanguageCode::UserProvided("fr-FR".into()).code(), "fr-FR");
    assert_eq!(LanguageCode::JaJp.booth_lang_code(), "ja");
    assert_eq!(LanguageCode::EnUs.booth_lang_code(), "en");
    assert_eq!(LanguageCode::EnGb.booth_lang_code(), "en");
    assert_eq!(LanguageCode::ZhCn.booth_lang_code(), "zh-cn");
    assert_eq!(LanguageCode::UserProvided("fr-FR".into()).booth_lang_code(), "en");
}

#[test]
fn language_from_locale() {
    assert_eq!(language_for_locale(Some("ja-JP".into())), LanguageCode::JaJp);
    assert_eq!(language_for_locale(Some("en-US".into())), LanguageCode::EnUs);
    assert_eq!(language_for_locale(Some("en-GB".into())), LanguageCode::EnGb);
    assert_eq!(language_for_locale(Some("zh-CN".into())), LanguageCode::ZhCn);
    assert_eq!(language_for_locale(Some("de-DE".into())), LanguageCode::EnUs);
    assert_eq!(language_for_locale(Some("ja".into())), LanguageCode::EnUs);
    assert_eq!(language_for_locale(None), LanguageCode::EnUs);
}

#[test]
fn device_name_falls_back() {
    assert_eq!(device_name_from_host(Some("pc".into())), "pc");
    assert_eq!(device_name_from_host(Some("".into())), "Unknown Device");
    assert_eq!(device_name_from_host(None), "Unknown Device");
    assert!(!default_device_name().is_empty());
}

#[test]
fn first_start_preferences() {
    let p = store();
    assert_eq!(p.file_path, "pref.json");
    assert_eq!(p.data_dir_path, "data");
    assert_eq!(p.theme, Theme::System);
    assert_eq!(p.language, LanguageCode::JaJp);
    assert!(!p.delete_on_import);
    assert!(p.zip_extraction);
    assert!(p.use_unitypackage_selected_open);
    assert!(p.use_trash_bin);
    assert_eq!(p.update_channel, UpdateChannel::Stable);
    assert_eq!(p.device_id, 5);
    assert_eq!(p.device_name, "host");
    assert_eq!(p.auto_refresh_interval_seconds, 0);
}

#[test]
fn default_preferences_have_fresh_version_4_identifier() {
    let p = PreferenceStore::default("p".into(), "d".into());
    let q = PreferenceStore::default("p".into(), "d".into());
    assert_eq!(Uuid::from_u128(p.device_id).get_version_num(), 4);
    assert_eq!(Uuid::from_u128(p.device_id).get_variant(), uuid::Variant::RFC4122);
    assert_ne!(p.device_id, q.device_id);
    assert!(!matches!(p.language, LanguageCode::UserProvided(_)));
    assert!(!p.device_name.is_empty());
}

#[test]
fn overwrite_keeps_device_and_user_language() {
    let mut p = store();
    let mut o = PreferenceStore::with_environment("other.json".into(), "elsewhere".into(), None, 9, Some("o".into()));
    o.theme = Theme::Dark;
    o.update_channel = UpdateChannel::PreRelease;
    o.auto_refresh_interval_seconds = 30;
    o.use_trash_bin = false;
    o.language = LanguageCode::UserProvided("xx".into());
    p.overwrite(&o);
    assert_eq!(p.data_dir_path, "elsewhere");
    assert_eq!(p.theme, Theme::Dark);
    assert_eq!(p.update_channel, UpdateChannel::PreRelease);
    assert_eq!(p.auto_refresh_interval_seconds, 30);
    assert!(!p.use_trash_bin);
    assert_eq!(p.language, LanguageCode::JaJp);
    assert_eq!(p.file_path, "pref.json");
    assert_eq!(p.device_id, 5);
    assert_eq!(p.device_name, "host");
    o.language = LanguageCode::EnGb;
    p.overwrite(&o);
    assert_eq!(p.language, LanguageCode::EnGb);
    let once = p.clone();
    p.overwrite(&o);
    assert_eq!(p.data_dir_path, once.data_dir_path);
    assert_eq!(p.language, once.language);
}

#[test]
fn data_dir_accessors() {
    let mut p = store();
    assert_eq!(p.get_data_dir(), "data");
    p.set_data_dir("new".into());
    assert_eq!(p.get_data_dir(), "new");
}

#[test]
fn resolving_read_preferences() {
    let read = store();
    let r = resolve_preference_store(Some(Ok(read)), "here.json".into(), "dd".into());
    assert_eq!(r.file_path, "here.json");
    assert_eq!(r.device_id, 5);
    let r = resolve_preference_store(Some(Err("bad".into())), "here.json".into(), "dd".into());
    assert_eq!(r.file_path, "here.json");
    assert_eq!(r.data_dir_path, "dd");
    assert_eq!(r.theme, Theme::System);
    let r = resolve_preference_store(None, "here.json".into(), "dd".into());
    assert_eq!(r.data_dir_path, "dd");
}
