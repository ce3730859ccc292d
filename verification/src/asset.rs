//! The assets that the library manages and the interface common to all
//! four kinds of them.
use vstd::prelude::*;
use crate::file_names::{device_file_name, device_file_name_of};
use crate::text::texts;
use crate::values::{opt_text, same_opt_text, copy_opt_text, same_texts, copy_texts, same_ids, copy_ids};

verus! {

/// What is recorded of every asset besides its identifier.
#[derive(Debug, Clone, PartialEq, Eq, Hash)]
pub struct AssetDescription {
    pub name: String,
    pub creator: String,
    pub image_filename: Option<String>,
    pub tags: Vec<String>,
    pub memo: Option<String>,
    pub booth_item_id: Option<u64>,
    pub dependencies: Vec<u128>,
    pub created_at: i64,
    pub published_at: Option<i64>,
    /// The device on which the asset was first registered.
    pub registered_device_id: u128,
}

/// The contents of an [`AssetDescription`] as plain values.
#[verifier::ext_equal]
pub struct DescriptionView {
    pub name: Seq<char>,
    pub creator: Seq<char>,
    pub image_filename: Option<Seq<char>>,
    pub tags: Seq<Seq<char>>,
    pub memo: Option<Seq<char>>,
    pub booth_item_id: Option<u64>,
    pub dependencies: Seq<u128>,
    pub created_at: i64,
    pub published_at: Option<i64>,
    pub registered_device_id: u128,
}

impl View for AssetDescription {
    type V = DescriptionView;

    open spec fn view(&self) -> DescriptionView {
        DescriptionView {
            name: self.name@,
            creator: self.creator@,
            image_filename: opt_text(self.image_filename),
            tags: texts(self.tags@),
            memo: opt_text(self.memo),
            booth_item_id: self.booth_item_id,
            dependencies: self.dependencies@,
            created_at: self.created_at,
            published_at: self.published_at,
            registered_device_id: self.registered_device_id,
        }
    }
}

impl AssetDescription {
    /// Whether the two descriptions hold the same values.
    pub fn same_as(&self, other: &Self) -> (r: bool)
        ensures
            r == (self@ == other@),
    {
        let r = self.name == other.name && self.creator == other.creator && same_opt_text(
            &self.image_filename,
            &other.image_filename,
        ) && same_texts(&self.tags, &other.tags) && same_opt_text(&self.memo, &other.memo)
            && self.booth_item_id == other.booth_item_id && same_ids(
            &self.dependencies,
            &other.dependencies,
        ) && self.created_at == other.created_at && self.published_at == other.published_at
            && self.registered_device_id == other.registered_device_id;
        if r {
            assert(self@ =~= other@);
        }
        r
    }

    /// A copy of the description.
    pub fn duplicate(&self) -> (r: Self)
        ensures
            r@ == self@,
    {
        let r = AssetDescription {
            name: self.name.clone(),
            creator: self.creator.clone(),
            image_filename: copy_opt_text(&self.image_filename),
            tags: copy_texts(&self.tags),
            memo: copy_opt_text(&self.memo),
            booth_item_id: self.booth_item_id,
            dependencies: copy_ids(&self.dependencies),
            created_at: self.created_at,
            published_at: self.published_at,
            registered_device_id: self.registered_device_id,
        };
        assert(r@ =~= self@);
        r
    }
}

/// The four kinds of assets.
#[derive(Debug, Clone, Copy, PartialEq, Eq, Structural)]
pub enum AssetType {
    Avatar,
    AvatarWearable,
    WorldObject,
    OtherAsset,
}

/// What the library needs of each kind of asset.
pub trait AssetTrait: View + Sized {
    /// The name of the single file of the old layout.
    spec fn legacy_name() -> Seq<char>;

    /// The common start of the names of this kind's per-device files.
    spec fn kind_prefix() -> Seq<char>;

    /// The kind of asset.
    spec fn kind() -> AssetType;

    /// The identifier of an asset.
    spec fn id_of(v: Self::V) -> u128;

    /// The description of an asset.
    spec fn description_of(v: Self::V) -> DescriptionView;

    /// The asset with its identifier replaced.
    spec fn with_id(v: Self::V, id: u128) -> Self::V;

    /// The asset with its description replaced.
    spec fn with_description(v: Self::V, d: DescriptionView) -> Self::V;

    /// How the accessors and the replacements fit together.
    proof fn lemma_accessors(v: Self::V, id: u128, d: DescriptionView)
        ensures
            Self::id_of(Self::with_id(v, id)) == id,
            Self::description_of(Self::with_id(v, id)) == Self::description_of(v),
            Self::id_of(Self::with_description(v, d)) == Self::id_of(v),
            Self::description_of(Self::with_description(v, d)) == d,
            Self::with_id(v, Self::id_of(v)) == v,
            Self::with_description(v, Self::description_of(v)) == v,
    ;

    /// Replacing the description twice keeps only the second one.
    proof fn lemma_description_replaced_twice(v: Self::V, d1: DescriptionView, d2: DescriptionView)
        ensures
            Self::with_description(Self::with_description(v, d1), d2) == Self::with_description(v, d2),
    ;

    /// The name of the single file of the old layout.
    fn filename() -> (r: String)
        ensures
            r@ == Self::legacy_name(),
    ;

    /// The common start of the names of this kind's per-device files.
    fn filename_prefix() -> (r: String)
        ensures
            r@ == Self::kind_prefix(),
    ;

    /// The name of the file of this kind that the device `device_id` writes.
    fn device_filename(device_id: u128) -> (r: String)
        ensures
            r@ == device_file_name(Self::kind_prefix(), device_id),
    {
        let p = Self::filename_prefix();
        device_file_name_of(p.as_str(), device_id)
    }

    /// The kind of asset.
    fn asset_type() -> (r: AssetType)
        ensures
            r == Self::kind(),
    ;

    /// The identifier of the asset.
    fn get_id(&self) -> (r: u128)
        ensures
            r == Self::id_of(self@),
    ;

    /// Replaces the identifier of the asset.
    fn set_id(&mut self, id: u128)
        ensures
            final(self)@ == Self::with_id(old(self)@, id),
    ;

    /// The description of the asset.
    fn get_description(&self) -> (r: &AssetDescription)
        ensures
            r@ == Self::description_of(self@),
    ;

    /// The description of the asset, to be changed in place.
    fn get_description_as_mut(&mut self) -> (r: &mut AssetDescription)
        ensures
            r@ == Self::description_of(old(self)@),
            final(self)@ == Self::with_description(old(self)@, final(r)@),
    ;

    /// A copy of the asset.
    fn duplicate(&self) -> (r: Self)
        ensures
            r@ == self@,
    ;

    /// Whether the two assets hold the same values.
    fn same_as(&self, other: &Self) -> (r: bool)
        ensures
            r == (self@ == other@),
    ;
}

/// An avatar.
#[derive(Debug, Clone, PartialEq, Eq, Hash)]
pub struct Avatar {
    pub id: u128,
    pub description: AssetDescription,
}

/// An [`Avatar`] as plain values.
#[verifier::ext_equal]
pub struct AvatarView {
    pub id: u128,
    pub description: DescriptionView,
}

impl View for Avatar {
    type V = AvatarView;

    open spec fn view(&self) -> AvatarView {
        AvatarView { id: self.id, description: self.description@ }
    }
}

impl AssetTrait for Avatar {
    open spec fn legacy_name() -> Seq<char> {
        "avatars.json"@
    }

    open spec fn kind_prefix() -> Seq<char> {
        "avatars"@
    }

    open spec fn kind() -> AssetType {
        AssetType::Avatar
    }

    open spec fn id_of(v: AvatarView) -> u128 {
        v.id
    }

    open spec fn description_of(v: AvatarView) -> DescriptionView {
        v.description
    }

    open spec fn with_id(v: AvatarView, id: u128) -> AvatarView {
        AvatarView { id, ..v }
    }

    open spec fn with_description(v: AvatarView, d: DescriptionView) -> AvatarView {
        AvatarView { description: d, ..v }
    }

    proof fn lemma_accessors(v: AvatarView, id: u128, d: DescriptionView) {
    }

    proof fn lemma_description_replaced_twice(v: AvatarView, d1: DescriptionView, d2: DescriptionView) {
    }

    fn filename() -> (r: String) {
        String::from_str("avatars.json")
    }

    fn filename_prefix() -> (r: String) {
        String::from_str("avatars")
    }

    fn asset_type() -> (r: AssetType) {
        AssetType::Avatar
    }

    fn get_id(&self) -> (r: u128) {
        self.id
    }

    fn set_id(&mut self, id: u128) {
        self.id = id;
    }

    fn get_description(&self) -> (r: &AssetDescription) {
        &self.description
    }

    fn get_description_as_mut(&mut self) -> (r: &mut AssetDescription) {
        &mut self.description
    }

    fn duplicate(&self) -> (r: Self) {
        Avatar { id: self.id, description: self.description.duplicate() }
    }

    fn same_as(&self, other: &Self) -> (r: bool) {
        let r = self.id == other.id && self.description.same_as(&other.description);
        if r {
            assert(self@ =~= other@);
        }
        r
    }
}


/// A wearable item made for one or more avatars.
#[derive(Debug, Clone, PartialEq, Eq, Hash)]
pub struct AvatarWearable {
    pub id: u128,
    pub description: AssetDescription,
    pub category: String,
    pub supported_avatars: Vec<String>,
}

/// An [`AvatarWearable`] as plain values.
#[verifier::ext_equal]
pub struct AvatarWearableView {
    pub id: u128,
    pub description: DescriptionView,
    pub category: Seq<char>,
    pub supported_avatars: Seq<Seq<char>>,
}

impl View for AvatarWearable {
    type V = AvatarWearableView;

    open spec fn view(&self) -> AvatarWearableView {
        AvatarWearableView { id: self.id, description: self.description@, category: self.category@, supported_avatars: texts(self.supported_avatars@) }
    }
}

impl AssetTrait for AvatarWearable {
    open spec fn legacy_name() -> Seq<char> {
        "avatarWearables.json"@
    }

    open spec fn kind_prefix() -> Seq<char> {
        "avatarWearables"@
    }

    open spec fn kind() -> AssetType {
        AssetType::AvatarWearable
    }

    open spec fn id_of(v: AvatarWearableView) -> u128 {
        v.id
    }

    open spec fn description_of(v: AvatarWearableView) -> DescriptionView {
        v.description
    }

    open spec fn with_id(v: AvatarWearableView, id: u128) -> AvatarWearableView {
        AvatarWearableView { id, ..v }
    }

    open spec fn with_description(v: AvatarWearableView, d: DescriptionView) -> AvatarWearableView {
        AvatarWearableView { description: d, ..v }
    }

    proof fn lemma_accessors(v: AvatarWearableView, id: u128, d: DescriptionView) {
    }

    proof fn lemma_description_replaced_twice(v: AvatarWearableView, d1: DescriptionView, d2: DescriptionView) {
    }

    fn filename() -> (r: String) {
        String::from_str("avatarWearables.json")
    }

    fn filename_prefix() -> (r: String) {
        String::from_str("avatarWearables")
    }

    fn asset_type() -> (r: AssetType) {
        AssetType::AvatarWearable
    }

    fn get_id(&self) -> (r: u128) {
        self.id
    }

    fn set_id(&mut self, id: u128) {
        self.id = id;
    }

    fn get_description(&self) -> (r: &AssetDescription) {
        &self.description
    }

    fn get_description_as_mut(&mut self) -> (r: &mut AssetDescription) {
        &mut self.description
    }

    fn duplicate(&self) -> (r: Self) {
        let r = AvatarWearable { id: self.id, description: self.description.duplicate(), category: self.category.clone(), supported_avatars: copy_texts(&self.supported_avatars) };
        assert(r@ =~= self@);
        r
    }

    fn same_as(&self, other: &Self) -> (r: bool) {
        let r = self.id == other.id && self.description.same_as(&other.description) && self.category == other.category && same_texts(&self.supported_avatars, &other.supported_avatars);
        if r {
            assert(self@ =~= other@);
        }
        r
    }
}

/// An object placed in a world.
#[derive(Debug, Clone, PartialEq, Eq, Hash)]
pub struct WorldObject {
    pub id: u128,
    pub description: AssetDescription,
    pub category: String,
}

/// A [`WorldObject`] as plain values.
#[verifier::ext_equal]
pub struct WorldObjectView {
    pub id: u128,
    pub description: DescriptionView,
    pub category: Seq<char>,
}

impl View for WorldObject {
    type V = WorldObjectView;

    open spec fn view(&self) -> WorldObjectView {
        WorldObjectView { id: self.id, description: self.description@, category: self.category@ }
    }
}

impl AssetTrait for WorldObject {
    open spec fn legacy_name() -> Seq<char> {
        "worldObjects.json"@
    }

    open spec fn kind_prefix() -> Seq<char> {
        "worldObjects"@
    }

    open spec fn kind() -> AssetType {
        AssetType::WorldObject
    }

    open spec fn id_of(v: WorldObjectView) -> u128 {
        v.id
    }

    open spec fn description_of(v: WorldObjectView) -> DescriptionView {
        v.description
    }

    open spec fn with_id(v: WorldObjectView, id: u128) -> WorldObjectView {
        WorldObjectView { id, ..v }
    }

    open spec fn with_description(v: WorldObjectView, d: DescriptionView) -> WorldObjectView {
        WorldObjectView { description: d, ..v }
    }

    proof fn lemma_accessors(v: WorldObjectView, id: u128, d: DescriptionView) {
    }

    proof fn lemma_description_replaced_twice(v: WorldObjectView, d1: DescriptionView, d2: DescriptionView) {
    }

    fn filename() -> (r: String) {
        String::from_str("worldObjects.json")
    }

    fn filename_prefix() -> (r: String) {
        String::from_str("worldObjects")
    }

    fn asset_type() -> (r: AssetType) {
        AssetType::WorldObject
    }

    fn get_id(&self) -> (r: u128) {
        self.id
    }

    fn set_id(&mut self, id: u128) {
        self.id = id;
    }

    fn get_description(&self) -> (r: &AssetDescription) {
        &self.description
    }

    fn get_description_as_mut(&mut self) -> (r: &mut AssetDescription) {
        &mut self.description
    }

    fn duplicate(&self) -> (r: Self) {
        let r = WorldObject { id: self.id, description: self.description.duplicate(), category: self.category.clone() };
        assert(r@ =~= self@);
        r
    }

    fn same_as(&self, other: &Self) -> (r: bool) {
        let r = self.id == other.id && self.description.same_as(&other.description) && self.category == other.category;
        if r {
            assert(self@ =~= other@);
        }
        r
    }
}

/// Any other asset.
#[derive(Debug, Clone, PartialEq, Eq, Hash)]
pub struct OtherAsset {
    pub id: u128,
    pub description: AssetDescription,
    pub category: String,
}

/// An [`OtherAsset`] as plain values.
#[verifier::ext_equal]
pub struct OtherAssetView {
    pub id: u128,
    pub description: DescriptionView,
    pub category: Seq<char>,
}

impl View for OtherAsset {
    type V = OtherAssetView;

    open spec fn view(&self) -> OtherAssetView {
        OtherAssetView { id: self.id, description: self.description@, category: self.category@ }
    }
}

impl AssetTrait for OtherAsset {
    open spec fn legacy_name() -> Seq<char> {
        "otherAssets.json"@
    }

    open spec fn kind_prefix() -> Seq<char> {
        "otherAssets"@
    }

    open spec fn kind() -> AssetType {
        AssetType::OtherAsset
    }

    open spec fn id_of(v: OtherAssetView) -> u128 {
        v.id
    }

    open spec fn description_of(v: OtherAssetView) -> DescriptionView {
        v.description
    }

    open spec fn with_id(v: OtherAssetView, id: u128) -> OtherAssetView {
        OtherAssetView { id, ..v }
    }

    open spec fn with_description(v: OtherAssetView, d: DescriptionView) -> OtherAssetView {
        OtherAssetView { description: d, ..v }
    }

    proof fn lemma_accessors(v: OtherAssetView, id: u128, d: DescriptionView) {
    }

    proof fn lemma_description_replaced_twice(v: OtherAssetView, d1: DescriptionView, d2: DescriptionView) {
    }

    fn filename() -> (r: String) {
        String::from_str("otherAssets.json")
    }

    fn filename_prefix() -> (r: String) {
        String::from_str("otherAssets")
    }

    fn asset_type() -> (r: AssetType) {
        AssetType::OtherAsset
    }

    fn get_id(&self) -> (r: u128) {
        self.id
    }

    fn set_id(&mut self, id: u128) {
        self.id = id;
    }

    fn get_description(&self) -> (r: &AssetDescription) {
        &self.description
    }

    fn get_description_as_mut(&mut self) -> (r: &mut AssetDescription) {
        &mut self.description
    }

    fn duplicate(&self) -> (r: Self) {
        let r = OtherAsset { id: self.id, description: self.description.duplicate(), category: self.category.clone() };
        assert(r@ =~= self@);
        r
    }

    fn same_as(&self, other: &Self) -> (r: bool) {
        let r = self.id == other.id && self.description.same_as(&other.description) && self.category == other.category;
        if r {
            assert(self@ =~= other@);
        }
        r
    }
}

} // verus!
