//! Asset files of earlier formats and their upgrade to the current one.
use vstd::prelude::*;
use crate::asset::{AssetTrait, AssetDescription, DescriptionView, OtherAsset, OtherAssetView};
use crate::container::{views, insert_unique};
use crate::ident::NIL_ID;
use crate::text::texts;
use crate::values::{opt_text, copy_opt_text, copy_texts, copy_ids};

verus! {

/// The description of an asset in the third format, which did not record
/// the device an asset was registered on.
#[derive(Debug, Clone, PartialEq, Eq, Hash)]
pub struct LegacyAssetDescriptionV3 {
    pub name: String,
    pub creator: String,
    pub image_filename: Option<String>,
    pub tags: Vec<String>,
    pub memo: Option<String>,
    pub booth_item_id: Option<u64>,
    pub dependencies: Vec<u128>,
    pub created_at: i64,
    pub published_at: Option<i64>,
}

/// The current form of a description of the third format: registered on
/// no known device.
pub open spec fn upgraded_description(l: LegacyAssetDescriptionV3) -> DescriptionView {
    DescriptionView {
        name: l.name@,
        creator: l.creator@,
        image_filename: opt_text(l.image_filename),
        tags: texts(l.tags@),
        memo: opt_text(l.memo),
        booth_item_id: l.booth_item_id,
        dependencies: l.dependencies@,
        created_at: l.created_at,
        published_at: l.published_at,
        registered_device_id: NIL_ID,
    }
}

impl LegacyAssetDescriptionV3 {
    /// The description in the current form.
    pub fn into_description(self) -> (r: AssetDescription)
        ensures
            r@ == upgraded_description(self),
    {
        let r = AssetDescription {
            name: self.name,
            creator: self.creator,
            image_filename: self.image_filename,
            tags: self.tags,
            memo: self.memo,
            booth_item_id: self.booth_item_id,
            dependencies: self.dependencies,
            created_at: self.created_at,
            published_at: self.published_at,
            registered_device_id: NIL_ID,
        };
        r
    }
}

/// An asset of the "other" kind in the third format.
#[derive(Debug, Clone, PartialEq, Eq, Hash)]
pub struct LegacyOtherAssetV3 {
    pub id: u128,
    pub description: LegacyAssetDescriptionV3,
    pub category: String,
}

/// The current form of an asset of the third format.
pub open spec fn upgraded_other_asset(l: LegacyOtherAssetV3) -> OtherAssetView {
    OtherAssetView {
        id: l.id,
        description: upgraded_description(l.description),
        category: l.category@,
    }
}

impl LegacyOtherAssetV3 {
    /// The asset in the current form.
    pub fn into_other_asset(self) -> (r: OtherAsset)
        ensures
            r@ == upgraded_other_asset(self),
    {
        OtherAsset { id: self.id, description: self.description.into_description(), category: self.category }
    }

    /// A copy of the asset in the current form.
    pub fn upgraded_copy(&self) -> (r: OtherAsset)
        ensures
            r@ == upgraded_other_asset(*self),
    {
        let d = &self.description;
        let description = AssetDescription {
            name: d.name.clone(),
            creator: d.creator.clone(),
            image_filename: copy_opt_text(&d.image_filename),
            tags: copy_texts(&d.tags),
            memo: copy_opt_text(&d.memo),
            booth_item_id: d.booth_item_id,
            dependencies: copy_ids(&d.dependencies),
            created_at: d.created_at,
            published_at: d.published_at,
            registered_device_id: NIL_ID,
        };
        let r = OtherAsset { id: self.id, description, category: self.category.clone() };
        assert(r@ =~= upgraded_other_asset(*self));
        r
    }
}

/// The contents of a file of "other" assets, in either format.
#[allow(inconsistent_fields)]
pub enum VersionedOtherAssets {
    /// The current format.
    OtherAssets { data: Vec<OtherAsset> },
    /// The third format.
    LegacyOtherAssetsV3 { data: Vec<LegacyOtherAssetV3> },
}

/// The assets, in the current form, that the contents of a file hold.
pub open spec fn assets_of(v: VersionedOtherAssets) -> Set<OtherAssetView> {
    match v {
        VersionedOtherAssets::OtherAssets { data } => views(data@).to_set(),
        VersionedOtherAssets::LegacyOtherAssetsV3 { data } => data@.map_values(
            |l: LegacyOtherAssetV3| upgraded_other_asset(l),
        ).to_set(),
    }
}

impl VersionedOtherAssets {
    /// The assets of the file, in the current form and each once.
    pub fn try_into_assets(self) -> (r: Result<Vec<OtherAsset>, String>)
        ensures
            r matches Ok(v) && views(v@).no_duplicates() && views(v@).to_set() == assets_of(self),
    {
        let ghost whole = self;
        let mut out: Vec<OtherAsset> = Vec::new();
        assert(views(out@) =~= Seq::<OtherAssetView>::empty());
        match self {
            VersionedOtherAssets::OtherAssets { data } => {
                let ghost src = views(data@);
                let mut i: usize = 0;
                assert(src.take(0).to_set() =~= Set::<OtherAssetView>::empty());
                assert(views(out@).to_set() =~= Set::<OtherAssetView>::empty());
                while i < data.len()
                    invariant
                        i <= data.len(),
                        src == views(data@),
                        views(out@).no_duplicates(),
                        views(out@).to_set() == src.take(i as int).to_set(),
                    decreases data.len() - i,
                {
                    let a = data[i].duplicate();
                    assert(src.take(i + 1) =~= src.take(i as int).push(src[i as int]));
                    proof {
                        src.take(i as int).lemma_push_to_set_commute(src[i as int]);
                    }
                    insert_unique(&mut out, a);
                    i = i + 1;
                }
                assert(src.take(src.len() as int) =~= src);
            },
            VersionedOtherAssets::LegacyOtherAssetsV3 { data } => {
                let ghost f = |l: LegacyOtherAssetV3| upgraded_other_asset(l);
                let ghost src = data@.map_values(f);
                let mut i: usize = 0;
                assert(src.take(0).to_set() =~= Set::<OtherAssetView>::empty());
                assert(views(out@).to_set() =~= Set::<OtherAssetView>::empty());
                while i < data.len()
                    invariant
                        i <= data.len(),
                        f == (|l: LegacyOtherAssetV3| upgraded_other_asset(l)),
                        src == data@.map_values(f),
                        views(out@).no_duplicates(),
                        views(out@).to_set() == src.take(i as int).to_set(),
                    decreases data.len() - i,
                {
                    let a = data[i].upgraded_copy();
                    assert(src.take(i + 1) =~= src.take(i as int).push(src[i as int]));
                    proof {
                        src.take(i as int).lemma_push_to_set_commute(src[i as int]);
                    }
                    insert_unique(&mut out, a);
                    i = i + 1;
                }
                assert(src.take(src.len() as int) =~= src);
            },
        }
        Ok(out)
    }

    /// The contents of a file in the current format that holds `value`.
    pub fn try_from_assets(value: Vec<OtherAsset>) -> (r: Result<VersionedOtherAssets, String>)
        ensures
            r matches Ok(VersionedOtherAssets::OtherAssets { data }) && data@ == value@,
    {
        Ok(VersionedOtherAssets::OtherAssets { data: value })
    }
}

} // verus!
