use std::collections::HashMap;
use std::str::FromStr;

use konoasset::asset::{AssetDescription, AssetTrait, Avatar, OtherAsset};
use konoasset::container::JsonAssetContainer;
use uuid::Uuid;

fn id(s: &str) -> u128 {
    Uuid::from_str(s).unwrap().as_u128()
}

fn description(name: &str, image: Option<&str>, deps: Vec<u128>, created_at: i64) -> AssetDescription {
    AssetDescription {
        name: name.into(),
        creator: "Creator".into(),
        image_filename: image.map(|s| s.to_string()),
        tags: vec!["Tag".into()],
        memo: None,
        booth_item_id: None,
        dependencies: deps,
        created_at,
        published_at: None,
        registered_device_id: 7,
    }
}

fn avatar(i: u128, name: &str) -> Avatar {
    Avatar { id: i, description: description(name, None, vec![], 1) }
}

fn update(store: &mut JsonAssetContainer<Avatar>, asset: Avatar) -> Result<(), String> {
    let plan = store.prepare_update(asset)?;
    store.update_asset_and_save(plan, None);
    Ok(())
}

#[test]
fn test_json_store_as_avatar() {
    let device = Uuid::new_v4().as_u128();
    let mut store: JsonAssetContainer<Avatar> =
        JsonAssetContainer::create("test/temp/json_store/avatar".to_string(), device);

    let existing_avatar_id = id("72e89e43-2d29-4910-b24e-9550a6ea7152");
    let expected_avatar = Avatar {
        id: existing_avatar_id,
        description: AssetDescription {
            name: "Test Avatar".into(),
            creator: "Test Avatar Creator".into(),
            image_filename: Some("843e178b-6865-4834-a51c-ac5f9eccbdbf.jpg".into()),
            tags: vec!["TestAvatarTag".into()],
            memo: Some("Test Avatar Memo".into()),
            booth_item_id: Some(6641548),
            dependencies: vec![],
            created_at: 1743606000000,
            published_at: Some(1735657200000),
            registered_device_id: Uuid::nil().as_u128(),
        },
    };
    store.load(vec![vec![expected_avatar.clone()]]);

    let all_assets = store.get_all();
    assert_eq!(all_assets.len(), 1);
    assert!(all_assets.iter().any(|a| a.get_id() == existing_avatar_id));

    let avatar = store.get_asset(existing_avatar_id).unwrap();
    assert_eq!(avatar, expected_avatar);

    let new_avatar_uuid = Uuid::new_v4().as_u128();
    let new_avatar_dependency_id = Uuid::new_v4().as_u128();
    let mut new_avatar = Avatar {
        id: new_avatar_uuid,
        description: AssetDescription {
            name: "New Test Avatar".into(),
            creator: "New Test Avatar Creator".into(),
            image_filename: Some("new_avatar_image.jpg".into()),
            tags: vec!["NewTestAvatarTag".into()],
            memo: Some("New Test Avatar Memo".into()),
            booth_item_id: Some(6641548),
            dependencies: vec![new_avatar_dependency_id],
            created_at: 1234560000000,
            published_at: Some(1234560000000),
            registered_device_id: Uuid::new_v4().as_u128(),
        },
    };

    store.add_asset_and_save(new_avatar.clone());

    let all_assets = store.get_all();
    assert_eq!(all_assets.len(), 2);
    assert!(all_assets.iter().any(|a| a.get_id() == new_avatar_uuid));
    assert_eq!(store.get_asset(new_avatar_uuid).unwrap(), new_avatar);

    new_avatar.description.name = "Updated Test Avatar".into();

    update(&mut store, new_avatar.clone()).unwrap();

    let all_assets = store.get_all();
    assert_eq!(all_assets.len(), 2);
    assert!(all_assets.iter().any(|a| a.get_id() == new_avatar_uuid));
    assert_eq!(store.get_asset(new_avatar_uuid).unwrap(), new_avatar);

    let mut non_existing_avatar = new_avatar.clone();
    non_existing_avatar.id = Uuid::new_v4().as_u128();

    assert_eq!(
        update(&mut store, non_existing_avatar.clone()).unwrap_err(),
        "Asset not found".to_string()
    );

    assert_eq!(store.get_all().len(), 2);

    store.delete_asset_and_save(existing_avatar_id).unwrap();

    let all_assets = store.get_all();
    assert_eq!(all_assets.len(), 1);
    assert!(all_assets.iter().any(|a| a.get_id() == new_avatar_uuid));
    assert!(!all_assets.iter().any(|a| a.get_id() == existing_avatar_id));

    store.delete_dependency(new_avatar_dependency_id);
    assert_eq!(store.get_all().len(), 1);

    let fetched_new_avatar = store.get_asset(new_avatar_uuid).unwrap();
    assert_eq!(fetched_new_avatar.description.dependencies.len(), 0);
}

#[test]
fn save_request_names_own_device_file() {
    let device = id("00000000-0000-0000-0000-0000000000ab");
    let mut store: JsonAssetContainer<Avatar> = JsonAssetContainer::create("d".to_string(), device);
    let req = store.add_asset_and_save(avatar(1, "a"));
    assert_eq!(req.file_name, "avatars__00000000-0000-0000-0000-0000000000ab.json");
    assert_eq!(req.assets, vec![avatar(1, "a")]);
    assert_eq!(store.device_id(), device);
    assert_eq!(store.data_dir(), "d");
}

#[test]
fn adding_equal_asset_twice_keeps_one() {
    let mut store: JsonAssetContainer<Avatar> = JsonAssetContainer::create("d".to_string(), 1);
    store.add_asset_and_save(avatar(1, "a"));
    store.add_asset_and_save(avatar(1, "a"));
    assert_eq!(store.get_all().len(), 1);
    // A different asset with the same identifier is a different element.
    store.add_asset_and_save(avatar(1, "b"));
    assert_eq!(store.get_all().len(), 2);
}

#[test]
fn get_asset_missing_is_none() {
    let store: JsonAssetContainer<Avatar> = JsonAssetContainer::create("d".to_string(), 1);
    assert_eq!(store.get_asset(5), None);
}

#[test]
fn delete_missing_asset_writes_nothing() {
    let mut store: JsonAssetContainer<Avatar> = JsonAssetContainer::create("d".to_string(), 1);
    store.add_asset_and_save(avatar(1, "a"));
    assert!(store.delete_asset_and_save(2).is_none());
    assert_eq!(store.get_all(), vec![avatar(1, "a")]);
}

#[test]
fn update_keeps_registration_and_reports_image_change() {
    let mut store: JsonAssetContainer<Avatar> = JsonAssetContainer::create("d".to_string(), 1);
    let mut old = avatar(3, "old");
    old.description.created_at = 100;
    old.description.registered_device_id = 42;
    old.description.image_filename = Some("old.jpg".into());
    store.add_asset_and_save(old.clone());

    let mut new = avatar(3, "new");
    new.description.created_at = 999;
    new.description.registered_device_id = 43;
    new.description.image_filename = Some("temp.jpg".into());
    let plan = store.prepare_update(new).unwrap();
    assert_eq!(plan.previous, old);
    assert_eq!(plan.updated.description.created_at, 100);
    assert_eq!(plan.updated.description.registered_device_id, 42);
    let change = plan.image_change.as_ref().unwrap();
    assert_eq!(change.old_image.as_deref(), Some("old.jpg"));
    assert_eq!(change.new_image.as_deref(), Some("temp.jpg"));

    let req = store.update_asset_and_save(plan, Some("fixed.jpg".to_string()));
    let stored = store.get_asset(3).unwrap();
    assert_eq!(stored.description.name, "new");
    assert_eq!(stored.description.image_filename.as_deref(), Some("fixed.jpg"));
    assert_eq!(stored.description.created_at, 100);
    assert_eq!(stored.description.registered_device_id, 42);
    assert_eq!(req.assets.len(), 1);
}

#[test]
fn update_with_same_image_has_no_image_change() {
    let mut store: JsonAssetContainer<Avatar> = JsonAssetContainer::create("d".to_string(), 1);
    store.add_asset_and_save(avatar(3, "a"));
    let plan = store.prepare_update(avatar(3, "b")).unwrap();
    assert!(plan.image_change.is_none());
}

#[test]
fn delete_dependency_removes_all_occurrences_only() {
    let mut store: JsonAssetContainer<Avatar> = JsonAssetContainer::create("d".to_string(), 1);
    let mut a = avatar(1, "a");
    a.description.dependencies = vec![9, 8, 9];
    let mut b = avatar(2, "b");
    b.description.dependencies = vec![8];
    store.add_asset_and_save(a);
    store.add_asset_and_save(b.clone());
    store.delete_dependency(9);
    assert_eq!(store.get_asset(1).unwrap().description.dependencies, vec![8]);
    assert_eq!(store.get_asset(2).unwrap(), b);
}

#[test]
fn replace_thumbnails_renames_images() {
    let mut store: JsonAssetContainer<Avatar> = JsonAssetContainer::create("d".to_string(), 1);
    let mut a = avatar(1, "a");
    a.description.image_filename = Some("x.png".into());
    let mut b = avatar(2, "b");
    b.description.image_filename = Some("y.png".into());
    let c = avatar(3, "c");
    store.add_asset_and_save(a);
    store.add_asset_and_save(b);
    store.add_asset_and_save(c.clone());
    let map = vec![("x.png".to_string(), "x2.png".to_string()), ("x.png".to_string(), "other.png".to_string())];
    store.replace_thumbnails(&map);
    assert_eq!(store.get_asset(1).unwrap().description.image_filename.as_deref(), Some("x2.png"));
    assert_eq!(store.get_asset(2).unwrap().description.image_filename.as_deref(), Some("y.png"));
    assert_eq!(store.get_asset(3).unwrap(), c);
    assert_eq!(store.get_all().len(), 3);
}

#[test]
fn merge_from_reassigns_identifiers() {
    let mut mine: JsonAssetContainer<Avatar> = JsonAssetContainer::create("d".to_string(), 1);
    let mut theirs: JsonAssetContainer<Avatar> = JsonAssetContainer::create("e".to_string(), 2);
    mine.add_asset_and_save(avatar(1, "mine"));
    theirs.add_asset_and_save(avatar(1, "theirs"));
    theirs.add_asset_and_save(avatar(5, "kept"));
    let mut map = HashMap::new();
    map.insert(1u128, 100u128);
    let req = mine.merge_from(&theirs, &map);
    assert_eq!(mine.get_all().len(), 3);
    assert_eq!(mine.get_asset(1).unwrap().description.name, "mine");
    assert_eq!(mine.get_asset(100).unwrap().description.name, "theirs");
    assert_eq!(mine.get_asset(5).unwrap().description.name, "kept");
    assert_eq!(req.file_name, Avatar::device_filename(1));
}

#[test]
fn load_keeps_first_asset_of_each_identifier() {
    let mut store: JsonAssetContainer<OtherAsset> = JsonAssetContainer::create("d".to_string(), 1);
    let first = OtherAsset { id: 1, description: description("first", None, vec![], 1), category: "c".into() };
    let second = OtherAsset { id: 1, description: description("second", None, vec![], 2), category: "c".into() };
    let other = OtherAsset { id: 2, description: description("other", None, vec![], 3), category: "c".into() };
    store.add_asset_and_save(OtherAsset { id: 9, description: description("gone", None, vec![], 0), category: "c".into() });
    store.load(vec![vec![first.clone()], vec![second, other.clone()]]);
    let all = store.get_all();
    assert_eq!(all.len(), 2);
    assert_eq!(store.get_asset(1).unwrap(), first);
    assert_eq!(store.get_asset(2).unwrap(), other);
    assert_eq!(store.get_asset(9), None);
}

#[test]
fn load_of_disjoint_device_files_keeps_everything() {
    // Two devices added different assets at about the same time: nothing is lost.
    let mut store: JsonAssetContainer<Avatar> = JsonAssetContainer::create("d".to_string(), 1);
    store.load(vec![vec![avatar(1, "a"), avatar(2, "b")], vec![avatar(3, "c")]]);
    assert_eq!(store.get_all().len(), 3);
    store.load(vec![]);
    assert_eq!(store.get_all().len(), 0);
}

#[test]
fn asset_trait_accessors() {
    let mut a = avatar(1, "a");
    a.set_id(2);
    assert_eq!(a.get_id(), 2);
    a.get_description_as_mut().name = "renamed".into();
    assert_eq!(a.get_description().name, "renamed");
    assert!(a.same_as(&a.duplicate()));
    assert!(!a.same_as(&avatar(2, "other")));
    assert_eq!(Avatar::filename(), "avatars.json");
    assert_eq!(Avatar::filename_prefix(), "avatars");
    assert_eq!(
        konoasset::asset::WorldObject::filename_prefix(),
        "worldObjects"
    );
    assert_eq!(
        konoasset::asset::AvatarWearable::filename(),
        "avatarWearables.json"
    );
    assert_eq!(OtherAsset::asset_type(), konoasset::asset::AssetType::OtherAsset);
}

#[test]
fn saved_file_reads_back_the_same_assets() {
    let mut store: JsonAssetContainer<Avatar> = JsonAssetContainer::create("d".to_string(), 4);
    store.add_asset_and_save(avatar(1, "a"));
    let req = store.add_asset_and_save(avatar(2, "b"));
    let mut other: JsonAssetContainer<Avatar> = JsonAssetContainer::create("d".to_string(), 5);
    other.load(vec![req.assets]);
    let mut mine = store.get_all();
    let mut read = other.get_all();
    mine.sort_by_key(|a| a.id);
    read.sort_by_key(|a| a.id);
    assert_eq!(mine, read);
}

#[test]
fn thumbnail_renaming_follows_storage_order_on_chains() {
    // x -> y and y -> z: without chains every asset is renamed once; with a
    // chain the result depends on which asset comes first.
    let mut a = avatar(1, "same");
    a.description.image_filename = Some("x".into());
    let mut b = avatar(1, "same");
    b.description.image_filename = Some("y".into());
    let map = vec![("x".to_string(), "y".to_string()), ("y".to_string(), "z".to_string())];

    let mut first_a: JsonAssetContainer<Avatar> = JsonAssetContainer::create("d".to_string(), 1);
    first_a.add_asset_and_save(a.clone());
    first_a.add_asset_and_save(b.clone());
    first_a.replace_thumbnails(&map);
    let images: Vec<String> = first_a.get_all().into_iter().map(|v| v.description.image_filename.unwrap()).collect();
    assert_eq!(images, vec!["z".to_string()]);

    let mut first_b: JsonAssetContainer<Avatar> = JsonAssetContainer::create("d".to_string(), 1);
    first_b.add_asset_and_save(b);
    first_b.add_asset_and_save(a);
    first_b.replace_thumbnails(&map);
    let mut images: Vec<String> = first_b.get_all().into_iter().map(|v| v.description.image_filename.unwrap()).collect();
    images.sort();
    assert_eq!(images, vec!["y".to_string(), "z".to_string()]);
}

#[test]
fn thumbnail_renaming_with_unique_identifiers_renames_each_once() {
    let mut x = avatar(1, "x");
    x.description.image_filename = Some("a.jpg".into());
    let mut y = avatar(2, "y");
    y.description.image_filename = Some("b.jpg".into());
    let z = avatar(3, "z");
    let map = vec![("a.jpg".to_string(), "b.jpg".to_string()), ("b.jpg".to_string(), "c.jpg".to_string())];
    for order in [vec![x.clone(), y.clone(), z.clone()], vec![z.clone(), y.clone(), x.clone()]] {
        let mut c: JsonAssetContainer<Avatar> = JsonAssetContainer::create("d".to_string(), 1);
        for a in order {
            c.add_asset_and_save(a);
        }
        c.replace_thumbnails(&map);
        assert_eq!(c.get_all().len(), 3);
        assert_eq!(c.get_asset(1).unwrap().description.image_filename.as_deref(), Some("b.jpg"));
        assert_eq!(c.get_asset(2).unwrap().description.image_filename.as_deref(), Some("c.jpg"));
        assert_eq!(c.get_asset(3).unwrap().description.image_filename, None);
    }
}
