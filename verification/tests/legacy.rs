use konoasset::asset::{AssetDescription, OtherAsset};
use konoasset::legacy::{LegacyAssetDescriptionV3, LegacyOtherAssetV3, VersionedOtherAssets};

fn legacy(id: u128, name: &str) -> LegacyOtherAssetV3 {
    LegacyOtherAssetV3 {
        id,
        description: LegacyAssetDescriptionV3 {
            name: name.into(),
            creator: "c".into(),
            image_filename: Some("i.png".into()),
            tags: vec!["t".into()],
            memo: None,
            booth_item_id: Some(3),
            dependencies: vec![4],
            created_at: 10,
            published_at: Some(11),
        },
        category: "cat".into(),
    }
}

#[test]
fn legacy_asset_upgrade() {
    let a = legacy(1, "n").into_other_asset();
    assert_eq!(
        a,
        OtherAsset {
            id: 1,
            description: AssetDescription {
                name: "n".into(),
                creator: "c".into(),
                image_filename: Some("i.png".into()),
                tags: vec!["t".into()],
                memo: None,
                booth_item_id: Some(3),
                dependencies: vec![4],
                created_at: 10,
                published_at: Some(11),
                registered_device_id: 0,
            },
            category: "cat".into(),
        }
    );
    assert_eq!(legacy(1, "n").upgraded_copy(), a);
}

#[test]
fn versioned_contents_to_assets() {
    let v = VersionedOtherAssets::LegacyOtherAssetsV3 { data: vec![legacy(1, "a"), legacy(2, "b"), legacy(1, "a")] };
    let assets = v.try_into_assets().unwrap();
    assert_eq!(assets.len(), 2);
    let current = vec![legacy(5, "x").into_other_asset()];
    let v = VersionedOtherAssets::try_from_assets(current.clone()).unwrap();
    match &v {
        VersionedOtherAssets::OtherAssets { data } => assert_eq!(data, &current),
        _ => panic!("expected the current format"),
    }
    assert_eq!(v.try_into_assets().unwrap(), current);
}
