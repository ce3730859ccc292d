use std::str::FromStr;

use konoasset::asset::{AssetTrait, Avatar, OtherAsset};
use konoasset::device_registry::{collect_device_names, device_filename, is_device_name_file, DeviceEntry};
use konoasset::file_names::{device_file_name_of, is_device_file, select_device_files, should_adopt_legacy_file};
use konoasset::text::{ends_with, name_le, same_text, sort_names, starts_with};
use uuid::Uuid;

#[test]
fn device_file_name_uses_hyphenated_lower_case_identifier() {
    let id = Uuid::from_str("72E89E43-2D29-4910-B24E-9550A6EA7152").unwrap().as_u128();
    assert_eq!(
        device_file_name_of("avatars", id),
        "avatars__72e89e43-2d29-4910-b24e-9550a6ea7152.json"
    );
    assert_eq!(
        Avatar::device_filename(0),
        "avatars__00000000-0000-0000-0000-000000000000.json"
    );
    assert_eq!(
        OtherAsset::device_filename(u128::MAX),
        "otherAssets__ffffffff-ffff-ffff-ffff-ffffffffffff.json"
    );
    assert_eq!(device_filename(1), "device__00000000-0000-0000-0000-000000000001.json");
}

#[test]
fn written_file_is_recognised() {
    let name = device_file_name_of("worldObjects", 12345);
    assert!(is_device_file(&name, "worldObjects"));
    assert!(!is_device_file(&name, "avatars"));
    assert!(!is_device_file("worldObjects.json", "worldObjects"));
    assert!(!is_device_file("worldObjects__x.txt", "worldObjects"));
    assert!(is_device_file("worldObjects__.json", "worldObjects"));
    assert!(is_device_name_file(&device_filename(3)));
    assert!(!is_device_name_file(&Avatar::device_filename(3)));
}

#[test]
fn distinct_devices_write_distinct_files() {
    assert_ne!(Avatar::device_filename(1), Avatar::device_filename(2));
}

#[test]
fn avatars_prefix_does_not_match_avatar_wearables() {
    let name = device_file_name_of("avatarWearables", 1);
    assert!(!is_device_file(&name, "avatars"));
}

#[test]
fn selection_filters_and_sorts() {
    let names: Vec<String> = vec![
        "avatars__b.json".into(),
        "avatars.json".into(),
        "device__a.json".into(),
        "avatars__a.json".into(),
        "avatars__a.json.tmp".into(),
        "avatars__B.json".into(),
    ];
    let picked = select_device_files(&names, "avatars");
    assert_eq!(picked, vec!["avatars__B.json", "avatars__a.json", "avatars__b.json"]);
    assert_eq!(select_device_files(&vec![], "avatars"), Vec::<String>::new());
}

#[test]
fn text_helpers() {
    assert!(starts_with("abc", "ab"));
    assert!(starts_with("abc", ""));
    assert!(!starts_with("ab", "abc"));
    assert!(ends_with("abc.json", ".json"));
    assert!(!ends_with("json", ".json"));
    assert!(same_text("日本", "日本"));
    assert!(!same_text("日本", "日"));
    assert!(name_le("a", "b"));
    assert!(name_le("a", "a"));
    assert!(name_le("", "a"));
    assert!(!name_le("b", "a"));
    assert!(!name_le("ab", "a"));
    assert!(name_le("Z", "a"));
    assert_eq!(
        sort_names(vec!["c".into(), "a".into(), "b".into(), "a".into()]),
        vec!["a", "a", "b", "c"]
    );
}

#[test]
fn legacy_file_adoption_rule() {
    assert!(should_adopt_legacy_file(true, false));
    assert!(!should_adopt_legacy_file(true, true));
    assert!(!should_adopt_legacy_file(false, false));
    assert!(!should_adopt_legacy_file(false, true));
}

#[test]
fn device_names_later_entry_wins() {
    let entries = vec![
        DeviceEntry { id: 1, name: "first".into() },
        DeviceEntry { id: 2, name: "two".into() },
        DeviceEntry { id: 1, name: "renamed".into() },
    ];
    let names = collect_device_names(&entries);
    assert_eq!(names.len(), 2);
    assert_eq!(names.get(&1).map(|s| s.as_str()), Some("renamed"));
    assert_eq!(names.get(&2).map(|s| s.as_str()), Some("two"));
    assert!(collect_device_names(&vec![]).is_empty());
}
