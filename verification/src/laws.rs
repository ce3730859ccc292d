//! Properties of the library that relate several of its operations.
use vstd::prelude::*;
use crate::asset::{AssetTrait, DescriptionView};
use crate::container::{
    JsonAssetContainer, SaveRequest, views, loaded, first_with_its_id, ids_unique, without_dependency, other_than,
    keep_registration, stored_update, is_without, placed_in_order, lemma_filter_is_without, reassigned, lookup_text, thumbnail_target,
    thumbnails_replaced, with_image,
};

verus! {

/// No two assets of the sequence share an identifier.
pub open spec fn ids_distinct<T: AssetTrait>(s: Seq<T::V>) -> bool {
    forall|i: int, j: int| 0 <= i < j < s.len() ==> T::id_of(#[trigger] s[i]) != T::id_of(#[trigger] s[j])
}

/// Loading files whose assets all have distinct identifiers gives back
/// exactly the assets written: in particular, what devices wrote to their
/// own files without sharing identifiers is all there after a load.
pub proof fn lemma_load_gives_back_written<T: AssetTrait>(files: Seq<Vec<T>>)
    requires
        ids_distinct::<T>(loaded(files)),
    ensures
        forall|v: T::V| first_with_its_id::<T>(loaded(files), v) <==> loaded(files).to_set().contains(v),
{
    let s = loaded(files);
    assert forall|v: T::V| first_with_its_id::<T>(s, v) <==> s.to_set().contains(v) by {
        if s.to_set().contains(v) {
            let i = choose|i: int| 0 <= i < s.len() && s[i] == v;
            assert forall|j: int| 0 <= j < i implies T::id_of(#[trigger] s[j]) != T::id_of(v) by {
                assert(T::id_of(s[j]) != T::id_of(s[i]));
            }
        }
    }
}

/// A single file read back on its own holds what was written to it.
pub proof fn lemma_single_file_loaded<T: AssetTrait>(file: Vec<T>)
    ensures
        loaded(seq![file]) == views(file@),
{
    assert(seq![file].drop_last() =~= Seq::<Vec<T>>::empty());
    assert(loaded(Seq::<Vec<T>>::empty()) + views(file@) =~= views(file@));
}

/// What a device writes is what it reads back: loading the file of a
/// save request, on its own, gives the collection that was saved, as long
/// as no two of its assets share an identifier.
pub proof fn lemma_save_then_load<T: AssetTrait>(c: JsonAssetContainer<T>, req: SaveRequest<T>)
    requires
        c.saved_by(req),
        ids_distinct::<T>(c.entries()),
    ensures
        forall|v: T::V| first_with_its_id::<T>(loaded(seq![req.assets]), v) <==> c@.contains(v),
{
    lemma_single_file_loaded(req.assets);
    lemma_load_gives_back_written(seq![req.assets]);
}

/// After a load no two assets share an identifier, whatever the files
/// held.
pub proof fn lemma_loaded_ids_unique<T: AssetTrait>(files: Seq<Vec<T>>, a: T::V, b: T::V)
    requires
        first_with_its_id::<T>(loaded(files), a),
        first_with_its_id::<T>(loaded(files), b),
        T::id_of(a) == T::id_of(b),
    ensures
        a == b,
{
    let s = loaded(files);
    let ia = choose|i: int|
        0 <= i < s.len() && s[i] == a && forall|j: int| 0 <= j < i ==> T::id_of(#[trigger] s[j]) != T::id_of(a);
    let ib = choose|i: int|
        0 <= i < s.len() && s[i] == b && forall|j: int| 0 <= j < i ==> T::id_of(#[trigger] s[j]) != T::id_of(b);
    if ia < ib {
        assert(T::id_of(s[ia]) != T::id_of(b));
    } else if ib < ia {
        assert(T::id_of(s[ib]) != T::id_of(a));
    }
}

/// After a dependency is removed, no asset depends on it any more.
pub proof fn lemma_no_dependency_left<T: AssetTrait>(s: Set<T::V>, id: u128, w: T::V)
    requires
        s.map(|v: T::V| without_dependency::<T>(v, id)).contains(w),
    ensures
        !T::description_of(w).dependencies.contains(id),
{
    let v = choose|v: T::V| s.contains(v) && w == without_dependency::<T>(v, id);
    let d = T::description_of(v);
    if d.dependencies.contains(id) {
        let nd = DescriptionView { dependencies: d.dependencies.filter(other_than(id)), ..d };
        T::lemma_accessors(v, T::id_of(v), nd);
        if nd.dependencies.contains(id) {
            let k = choose|k: int| 0 <= k < nd.dependencies.len() && nd.dependencies[k] == id;
            d.dependencies.lemma_filter_pred(other_than(id), k);
        }
    }
}

/// Removing a dependency takes out exactly its occurrences: every other
/// dependency of the asset stays, in the same order.
pub proof fn lemma_dependency_removal_keeps_others<T: AssetTrait>(v: T::V, id: u128)
    ensures
        is_without(
            T::description_of(v).dependencies,
            T::description_of(without_dependency::<T>(v, id)).dependencies,
            id,
        ),
{
    let d = T::description_of(v);
    if d.dependencies.contains(id) {
        let nd = DescriptionView { dependencies: d.dependencies.filter(other_than(id)), ..d };
        T::lemma_accessors(v, T::id_of(v), nd);
        lemma_filter_is_without(d.dependencies, id);
    } else {
        let s = d.dependencies;
        let pos = Seq::new(s.len(), |k: int| k);
        assert forall|p: int| 0 <= p < s.len() && #[trigger] s[p] != id implies exists|k: int|
            0 <= k < s.len() && pos[k] == p by {
            assert(pos[p] == p);
        }
        assert(placed_in_order(s, s, id, pos));
    }
}

/// Removing a dependency changes nothing but the dependencies: the
/// identifier and the other fields of the description stay.
pub proof fn lemma_dependency_removal_keeps_rest<T: AssetTrait>(v: T::V, id: u128)
    ensures
        T::id_of(without_dependency::<T>(v, id)) == T::id_of(v),
        (DescriptionView {
            dependencies: T::description_of(v).dependencies,
            ..T::description_of(without_dependency::<T>(v, id))
        }) == T::description_of(v),
{
    let d = T::description_of(v);
    let nd = DescriptionView { dependencies: d.dependencies.filter(other_than(id)), ..d };
    T::lemma_accessors(v, T::id_of(v), nd);
}

/// An updated asset keeps the identifier it was given, and the
/// registration time and device of the asset it replaces, whatever the
/// name its image file ends up with.
pub proof fn lemma_update_keeps_registration<T: AssetTrait>(
    previous: T::V,
    asset: T::V,
    fixed_image: Option<Seq<char>>,
)
    ensures
        ({
            let updated = T::with_description(
                asset,
                keep_registration(T::description_of(asset), T::description_of(previous)),
            );
            let stored = stored_update::<T>(updated, fixed_image);
            &&& T::id_of(stored) == T::id_of(asset)
            &&& T::description_of(stored).created_at == T::description_of(previous).created_at
            &&& T::description_of(stored).registered_device_id == T::description_of(
                previous,
            ).registered_device_id
            &&& T::description_of(stored).name == T::description_of(asset).name
        }),
{
    let nd = keep_registration(T::description_of(asset), T::description_of(previous));
    T::lemma_accessors(asset, T::id_of(asset), nd);
    let updated = T::with_description(asset, nd);
    match fixed_image {
        Some(f) => {
            let d2 = DescriptionView { image_filename: Some(f), ..T::description_of(updated) };
            T::lemma_accessors(updated, T::id_of(updated), d2);
        },
        None => {},
    }
}

/// An update changes nothing of the submitted asset but its registration
/// time and device, which come from the asset it replaces: identifier,
/// name, memo, tags, image and every other field are those submitted.
pub proof fn lemma_update_takes_submitted_fields<T: AssetTrait>(previous: T::V, asset: T::V)
    ensures
        ({
            let new = T::description_of(asset);
            let updated = T::with_description(
                asset,
                keep_registration(new, T::description_of(previous)),
            );
            &&& T::id_of(updated) == T::id_of(asset)
            &&& T::with_description(updated, new) == asset
            &&& (DescriptionView {
                created_at: new.created_at,
                registered_device_id: new.registered_device_id,
                ..T::description_of(updated)
            }) == new
        }),
{
    let new = T::description_of(asset);
    let kept = keep_registration(new, T::description_of(previous));
    T::lemma_accessors(asset, T::id_of(asset), kept);
    T::lemma_description_replaced_twice(asset, kept, new);
    T::lemma_accessors(asset, T::id_of(asset), new);
    assert((DescriptionView {
        created_at: new.created_at,
        registered_device_id: new.registered_device_id,
        ..kept
    }) =~= new);
}

/// A merge keeps every asset already there and brings in every asset of
/// the other collection, renamed as the map says.
pub proof fn lemma_merge_keeps_and_adds<T: AssetTrait>(
    own: Set<T::V>,
    other: Set<T::V>,
    m: Map<u128, u128>,
    v: T::V,
)
    ensures
        own.contains(v) ==> own.union(other.map(|x: T::V| reassigned::<T>(x, m))).contains(v),
        other.contains(v) ==> own.union(other.map(|x: T::V| reassigned::<T>(x, m))).contains(
            reassigned::<T>(v, m),
        ),
{
}

/// After the asset with an identifier is deleted from a collection whose
/// identifiers are unique, no asset with that identifier is left.
pub proof fn lemma_deleted_is_gone<T: AssetTrait>(s: Set<T::V>, x: T::V, w: T::V)
    requires
        ids_unique::<T>(s),
        s.contains(x),
        s.remove(x).contains(w),
    ensures
        T::id_of(w) != T::id_of(x),
{
}

/// An added asset is found afterwards by its identifier.
pub proof fn lemma_added_is_found<T: AssetTrait>(s: Set<T::V>, a: T::V)
    ensures
        s.insert(a).contains(a),
        exists|v: T::V| #[trigger] s.insert(a).contains(v) && T::id_of(v) == T::id_of(a),
{
    assert(s.insert(a).contains(a));
}


/// No text that an image is renamed to is itself renamed.
pub open spec fn no_chains(pairs: Seq<(Seq<char>, Seq<char>)>) -> bool {
    forall|i: int, j: int| 0 <= i < pairs.len() && 0 <= j < pairs.len() ==> pairs[i].1 != pairs[j].0
}

/// An asset with its image renamed, if the renaming applies to it.
pub open spec fn renamed<T: AssetTrait>(v: T::V, pairs: Seq<(Seq<char>, Seq<char>)>) -> T::V {
    match thumbnail_target::<T>(v, pairs) {
        Some(w) => w,
        None => v,
    }
}

/// A text found by `lookup_text` is the second text of one of the pairs.
proof fn lemma_lookup_found(pairs: Seq<(Seq<char>, Seq<char>)>, key: Seq<char>)
    ensures
        lookup_text(pairs, key) matches Some(g) ==> exists|k: int| 0 <= k < pairs.len() && #[trigger] pairs[k].1 == g,
        (forall|k: int| 0 <= k < pairs.len() ==> #[trigger] pairs[k].0 != key) ==> lookup_text(pairs, key) is None,
    decreases pairs.len(),
{
    if pairs.len() > 0 {
        lemma_lookup_found(pairs.drop_first(), key);
        if pairs[0].0 != key {
            if let Some(g) = lookup_text(pairs, key) {
                let k = choose|k: int| 0 <= k < pairs.drop_first().len() && #[trigger] pairs.drop_first()[k].1 == g;
                assert(pairs[k + 1].1 == g);
            }
            if forall|k: int| 0 <= k < pairs.len() ==> #[trigger] pairs[k].0 != key {
                assert forall|k: int| 0 <= k < pairs.drop_first().len() implies #[trigger] pairs.drop_first()[k].0 != key by {
                    assert(pairs[k + 1].0 != key);
                }
            }
        } else {
            assert(pairs[0].1 == pairs[0].1);
        }
    }
}

/// Renaming an image keeps the asset's identifier.
proof fn lemma_target_keeps_id<T: AssetTrait>(u: T::V, pairs: Seq<(Seq<char>, Seq<char>)>)
    ensures
        thumbnail_target::<T>(u, pairs) matches Some(w) ==> T::id_of(w) == T::id_of(u),
{
    if let Some(w) = thumbnail_target::<T>(u, pairs) {
        let d = T::description_of(u);
        let g = lookup_text(pairs, d.image_filename.unwrap()).unwrap();
        T::lemma_accessors(u, T::id_of(u), with_image(d, Some(g)));
    }
}

/// A renamed asset is not renamed again.
proof fn lemma_target_final<T: AssetTrait>(u: T::V, pairs: Seq<(Seq<char>, Seq<char>)>)
    requires
        no_chains(pairs),
    ensures
        thumbnail_target::<T>(u, pairs) matches Some(w) ==> thumbnail_target::<T>(w, pairs) is None,
{
    if let Some(w) = thumbnail_target::<T>(u, pairs) {
        let d = T::description_of(u);
        let f = d.image_filename.unwrap();
        let g = lookup_text(pairs, f).unwrap();
        T::lemma_accessors(u, T::id_of(u), with_image(d, Some(g)));
        lemma_lookup_found(pairs, f);
        let k = choose|k: int| 0 <= k < pairs.len() && #[trigger] pairs[k].1 == g;
        assert forall|j: int| 0 <= j < pairs.len() implies #[trigger] pairs[j].0 != g by {
            assert(pairs[k].1 != pairs[j].0);
        }
        lemma_lookup_found(pairs, g);
    }
}

/// The assets after renaming the images of the first `n` assets of
/// `order`, when no renamed text is renamed again.
spec fn renamed_prefix<T: AssetTrait>(
    s: Set<T::V>,
    order: Seq<T::V>,
    pairs: Seq<(Seq<char>, Seq<char>)>,
    n: int,
) -> Set<T::V> {
    Set::new(
        |x: T::V|
            (s.contains(x) && !(order.take(n).contains(x) && thumbnail_target::<T>(x, pairs) is Some))
                || exists|j: int| 0 <= j < n && thumbnail_target::<T>(#[trigger] order[j], pairs) == Some(x),
    )
}

proof fn lemma_renamed_prefix<T: AssetTrait>(
    s: Set<T::V>,
    order: Seq<T::V>,
    pairs: Seq<(Seq<char>, Seq<char>)>,
    n: int,
)
    requires
        order.no_duplicates(),
        order.to_set() == s,
        no_chains(pairs) || ids_unique::<T>(s),
        0 <= n <= order.len(),
    ensures
        thumbnails_replaced::<T>(s, order.take(n), pairs) == renamed_prefix::<T>(s, order, pairs, n),
    decreases n,
{
    if n == 0 {
        assert(order.take(0) =~= Seq::<T::V>::empty());
        assert(renamed_prefix::<T>(s, order, pairs, 0) =~= s);
    } else {
        lemma_renamed_prefix::<T>(s, order, pairs, n - 1);
        let m = n - 1;
        let v = order[m];
        let prev = renamed_prefix::<T>(s, order, pairs, n - 1);
        let next = renamed_prefix::<T>(s, order, pairs, n);
        let pre = order.take(m);
        let cur = order.take(n);
        assert(cur.drop_last() =~= pre);
        assert(cur.last() == v);
        assert(cur =~= pre.push(v));
        assert(!pre.contains(v)) by {
            if pre.contains(v) {
                let k = choose|k: int| 0 <= k < m && pre[k] == v;
                assert(order[k] == order[m]);
            }
        }
        assert(s.contains(v)) by {
            assert(order.to_set().contains(order[m]));
        }
        match thumbnail_target::<T>(v, pairs) {
            None => {
                assert forall|x: T::V| prev.contains(x) <==> next.contains(x) by {
                    if cur.contains(x) && !pre.contains(x) {
                        let k = choose|k: int| 0 <= k < n && cur[k] == x;
                        if k < m {
                            assert(pre[k] == x);
                        }
                    }
                    if pre.contains(x) {
                        let k = choose|k: int| 0 <= k < m && pre[k] == x;
                        assert(cur[k] == x);
                    }
                    if exists|j: int| 0 <= j < n && thumbnail_target::<T>(#[trigger] order[j], pairs) == Some(x) {
                        let j = choose|j: int| 0 <= j < n && thumbnail_target::<T>(#[trigger] order[j], pairs) == Some(x);
                        assert(j != m);
                    }
                }
                assert(prev =~= next);
            },
            Some(w) => {
                assert(prev.contains(v));
                assert forall|x: T::V| prev.remove(v).insert(w).contains(x) <==> next.contains(x) by {
                    if x == v {
                        assert(cur[m] == v);
                        if exists|j: int| 0 <= j < n && thumbnail_target::<T>(#[trigger] order[j], pairs) == Some(v) {
                            let j = choose|j: int| 0 <= j < n && thumbnail_target::<T>(#[trigger] order[j], pairs) == Some(v);
                            if no_chains(pairs) {
                                lemma_target_final::<T>(order[j], pairs);
                            } else {
                                lemma_target_keeps_id::<T>(order[j], pairs);
                                assert(s.contains(order[j])) by {
                                    assert(order.to_set().contains(order[j]));
                                }
                                assert(order[j] == v);
                                assert(j == m);
                            }
                        }
                    } else if x == w {
                        assert(thumbnail_target::<T>(order[m], pairs) == Some(w));
                    } else {
                        if cur.contains(x) {
                            let k = choose|k: int| 0 <= k < n && cur[k] == x;
                            assert(k != m);
                            assert(pre[k] == x);
                        }
                        if pre.contains(x) {
                            let k = choose|k: int| 0 <= k < m && pre[k] == x;
                            assert(cur[k] == x);
                        }
                        if exists|j: int| 0 <= j < n && thumbnail_target::<T>(#[trigger] order[j], pairs) == Some(x) {
                            let j = choose|j: int| 0 <= j < n && thumbnail_target::<T>(#[trigger] order[j], pairs) == Some(x);
                            assert(j != m);
                        }
                    }
                }
                assert(prev.remove(v).insert(w) =~= next);
            },
        }
    }
}

/// When no two stored assets share an identifier, renaming images renames
/// every asset at most once: each asset whose image is renamed is turned
/// into its renamed form and the others are kept, whatever the order in
/// which the assets are taken.
pub proof fn lemma_thumbnails_with_unique_ids<T: AssetTrait>(
    s: Set<T::V>,
    order: Seq<T::V>,
    pairs: Seq<(Seq<char>, Seq<char>)>,
)
    requires
        order.no_duplicates(),
        order.to_set() == s,
        ids_unique::<T>(s),
    ensures
        thumbnails_replaced::<T>(s, order, pairs) == s.map(|v: T::V| renamed::<T>(v, pairs)),
{
    lemma_thumbnails_renamed_once::<T>(s, order, pairs);
}

/// When no renamed image is renamed again, renaming images turns every
/// asset whose image is renamed into its renamed form and keeps the
/// others, whatever the order in which the assets are taken.
pub proof fn lemma_thumbnails_without_chains<T: AssetTrait>(
    s: Set<T::V>,
    order: Seq<T::V>,
    pairs: Seq<(Seq<char>, Seq<char>)>,
)
    requires
        order.no_duplicates(),
        order.to_set() == s,
        no_chains(pairs),
    ensures
        thumbnails_replaced::<T>(s, order, pairs) == s.map(|v: T::V| renamed::<T>(v, pairs)),
{
    lemma_thumbnails_renamed_once::<T>(s, order, pairs);
}

/// Renaming images maps every asset to its renamed form, when no renamed
/// image is renamed again or no two assets share an identifier.
proof fn lemma_thumbnails_renamed_once<T: AssetTrait>(
    s: Set<T::V>,
    order: Seq<T::V>,
    pairs: Seq<(Seq<char>, Seq<char>)>,
)
    requires
        order.no_duplicates(),
        order.to_set() == s,
        no_chains(pairs) || ids_unique::<T>(s),
    ensures
        thumbnails_replaced::<T>(s, order, pairs) == s.map(|v: T::V| renamed::<T>(v, pairs)),
{
    lemma_renamed_prefix::<T>(s, order, pairs, order.len() as int);
    assert(order.take(order.len() as int) =~= order);
    let r = renamed_prefix::<T>(s, order, pairs, order.len() as int);
    let m = s.map(|v: T::V| renamed::<T>(v, pairs));
    assert forall|x: T::V| r.contains(x) <==> m.contains(x) by {
        if r.contains(x) {
            if s.contains(x) && !(order.contains(x) && thumbnail_target::<T>(x, pairs) is Some) {
                assert(renamed::<T>(x, pairs) == x);
            } else {
                let j = choose|j: int| 0 <= j < order.len() && thumbnail_target::<T>(#[trigger] order[j], pairs) == Some(x);
                assert(s.contains(order[j])) by {
                    assert(order.to_set().contains(order[j]));
                }
                assert(renamed::<T>(order[j], pairs) == x);
            }
        }
        if m.contains(x) {
            let v = choose|v: T::V| s.contains(v) && x == renamed::<T>(v, pairs);
            assert(order.to_set().contains(v));
            let j = choose|j: int| 0 <= j < order.len() && order[j] == v;
            match thumbnail_target::<T>(v, pairs) {
                Some(w) => {
                    assert(thumbnail_target::<T>(order[j], pairs) == Some(x));
                },
                None => {},
            }
        }
    }
    assert(r =~= m);
}

} // verus!
