//! The in-memory collection of one kind of asset, as it is kept by one
//! device, and the decisions that reading and changing it involve.
//!
//! The collection behaves as a set of assets. Every change answers with
//! a [`SaveRequest`]: the file that this device writes and its contents.
use vstd::prelude::*;
use crate::asset::{AssetTrait, DescriptionView};
use crate::file_names::device_file_name;
use crate::values::{opt_text, same_opt_text, copy_opt_text};
use vstd::string::*;
use std::collections::HashMap;

verus! {

/// The plain values of a sequence of assets.
pub open spec fn views<T: View>(s: Seq<T>) -> Seq<T::V> {
    s.map_values(|a: T| a@)
}

/// No two assets of the set share an identifier.
pub open spec fn ids_unique<T: AssetTrait>(s: Set<T::V>) -> bool {
    forall|a: T::V, b: T::V|
        s.contains(a) && s.contains(b) && T::id_of(a) == T::id_of(b) ==> a == b
}

/// Removing one element of a sequence without repetitions removes it from
/// the set of its elements.
proof fn lemma_remove_from_unique<V>(s: Seq<V>, i: int)
    requires
        s.no_duplicates(),
        0 <= i < s.len(),
    ensures
        s.remove(i).no_duplicates(),
        s.remove(i).to_set() == s.to_set().remove(s[i]),
{
    let r = s.remove(i);
    assert forall|a: int, b: int| 0 <= a < b < r.len() implies r[a] != r[b] by {
        let sa = if a < i { a } else { a + 1 };
        let sb = if b < i { b } else { b + 1 };
        assert(r[a] == s[sa]);
        assert(r[b] == s[sb]);
    }
    assert forall|x: V| r.to_set().contains(x) <==> s.to_set().remove(s[i]).contains(x) by {
        if r.to_set().contains(x) {
            let k = choose|k: int| 0 <= k < r.len() && r[k] == x;
            let sk = if k < i { k } else { k + 1 };
            assert(s[sk] == x);
        }
        if s.to_set().remove(s[i]).contains(x) {
            let k = choose|k: int| 0 <= k < s.len() && s[k] == x;
            assert(k != i);
            let rk = if k < i { k } else { k - 1 };
            assert(r[rk] == x);
        }
    }
    assert(r.to_set() =~= s.to_set().remove(s[i]));
}

/// Appending an element that does not occur keeps a sequence free of
/// repetitions.
proof fn lemma_push_unique<V>(s: Seq<V>, x: V)
    requires
        s.no_duplicates(),
        !s.contains(x),
    ensures
        s.push(x).no_duplicates(),
        s.push(x).to_set() == s.to_set().insert(x),
{
    let r = s.push(x);
    assert forall|a: int, b: int| 0 <= a < b < r.len() implies r[a] != r[b] by {
        if b == s.len() {
            assert(r[a] == s[a]);
        }
    }
    assert(r.to_set() =~= s.to_set().insert(x)) by {
        assert forall|y: V| r.to_set().contains(y) implies s.to_set().insert(x).contains(y) by {
            let k = choose|k: int| 0 <= k < r.len() && r[k] == y;
            if k < s.len() {
                assert(s[k] == y);
            }
        }
        assert forall|y: V| s.to_set().insert(x).contains(y) implies r.to_set().contains(y) by {
            if y == x {
                assert(r[s.len() as int] == x);
            } else {
                let k = choose|k: int| 0 <= k < s.len() && s[k] == y;
                assert(r[k] == y);
            }
        }
    }
}

/// The position of an asset equal to `a`, if there is one.
fn position_of<T: AssetTrait>(v: &Vec<T>, a: &T) -> (r: Option<usize>)
    ensures
        match r {
            Some(i) => i < v.len() && v@[i as int]@ == a@,
            None => !views(v@).contains(a@),
        },
{
    let mut i: usize = 0;
    while i < v.len()
        invariant
            i <= v.len(),
            forall|j: int| 0 <= j < i ==> v@[j]@ != a@,
        decreases v.len() - i,
    {
        if v[i].same_as(a) {
            return Some(i);
        }
        i = i + 1;
    }
    assert forall|j: int| 0 <= j < views(v@).len() implies views(v@)[j] != a@ by {
        assert(views(v@)[j] == v@[j]@);
    }
    None
}

/// The position of the first asset with identifier `id`, if there is one.
fn position_of_id<T: AssetTrait>(v: &Vec<T>, id: u128) -> (r: Option<usize>)
    ensures
        match r {
            Some(i) => i < v.len() && T::id_of(v@[i as int]@) == id,
            None => forall|j: int| 0 <= j < v.len() ==> T::id_of(#[trigger] v@[j]@) != id,
        },
{
    let mut i: usize = 0;
    while i < v.len()
        invariant
            i <= v.len(),
            forall|j: int| 0 <= j < i ==> T::id_of(#[trigger] v@[j]@) != id,
        decreases v.len() - i,
    {
        if v[i].get_id() == id {
            return Some(i);
        }
        i = i + 1;
    }
    None
}

/// Adds `a` to a collection without repetitions, unless an equal asset is
/// already there.
pub(crate) fn insert_unique<T: AssetTrait>(v: &mut Vec<T>, a: T)
    requires
        views(old(v)@).no_duplicates(),
    ensures
        views(final(v)@).no_duplicates(),
        views(final(v)@).to_set() == views(old(v)@).to_set().insert(a@),
{
    match position_of(v, &a) {
        Some(i) => {
            assert(views(v@)[i as int] == a@);
            assert(views(v@).to_set().insert(a@) =~= views(v@).to_set());
        },
        None => {
            let ghost before = views(v@);
            let ghost x = a@;
            v.push(a);
            proof {
                assert(views(v@) =~= before.push(x));
                lemma_push_unique(before, x);
            }
        },
    }
}

/// Takes the asset at position `i` out of a collection without
/// repetitions.
fn take_at<T: AssetTrait>(v: &mut Vec<T>, i: usize) -> (r: T)
    requires
        views(old(v)@).no_duplicates(),
        i < old(v).len(),
    ensures
        r@ == old(v)@[i as int]@,
        views(final(v)@).no_duplicates(),
        views(final(v)@).to_set() == views(old(v)@).to_set().remove(r@),
{
    let ghost before = views(v@);
    let r = v.remove(i);
    proof {
        assert(views(v@) =~= before.remove(i as int));
        lemma_remove_from_unique(before, i as int);
    }
    r
}

/// Copies of all assets of a collection, in the same order.
fn copy_all<T: AssetTrait>(v: &Vec<T>) -> (r: Vec<T>)
    ensures
        views(r@) == views(v@),
{
    let mut r: Vec<T> = Vec::new();
    let mut i: usize = 0;
    while i < v.len()
        invariant
            i <= v.len(),
            r.len() == i,
            forall|j: int| 0 <= j < i ==> r@[j]@ == v@[j]@,
        decreases v.len() - i,
    {
        r.push(v[i].duplicate());
        i = i + 1;
    }
    assert(views(r@) =~= views(v@));
    r
}

/// `s` mapped element by element has the mapped elements of `s`.
proof fn lemma_map_values_to_set<A, B>(s: Seq<A>, f: spec_fn(A) -> B)
    ensures
        s.map_values(f).to_set() == s.to_set().map(f),
{
    assert forall|y: B| s.map_values(f).to_set().contains(y) <==> s.to_set().map(f).contains(y) by {
        if s.map_values(f).to_set().contains(y) {
            let k = choose|k: int| 0 <= k < s.map_values(f).len() && s.map_values(f)[k] == y;
            assert(s.to_set().contains(s[k]));
        }
        if s.to_set().map(f).contains(y) {
            let x = choose|x: A| s.to_set().contains(x) && y == f(x);
            let k = choose|k: int| 0 <= k < s.len() && s[k] == x;
            assert(s.map_values(f)[k] == y);
        }
    }
    assert(s.map_values(f).to_set() =~= s.to_set().map(f));
}

/// The test of being another identifier than `id`.
pub open spec fn other_than(id: u128) -> spec_fn(u128) -> bool {
    |x: u128| x != id
}

/// `pos` places the elements of `new` at increasing positions of `old`,
/// and every element of `old` other than `id` has its place in `new`.
pub open spec fn placed_in_order(old: Seq<u128>, new: Seq<u128>, id: u128, pos: Seq<int>) -> bool {
    &&& pos.len() == new.len()
    &&& forall|k: int| 0 <= k < new.len() ==> 0 <= #[trigger] pos[k] < old.len() && old[pos[k]] == new[k]
    &&& forall|a: int, b: int| 0 <= a < b < new.len() ==> #[trigger] pos[a] < #[trigger] pos[b]
    &&& forall|p: int| 0 <= p < old.len() && #[trigger] old[p] != id ==> exists|k: int| 0 <= k < new.len() && pos[k] == p
}

/// `new` is `old` with exactly the occurrences of `id` taken out: it does
/// not hold `id`, and every other element of `old` is still there, in the
/// same order.
pub open spec fn is_without(old: Seq<u128>, new: Seq<u128>, id: u128) -> bool {
    &&& !new.contains(id)
    &&& exists|pos: Seq<int>| placed_in_order(old, new, id, pos)
}

/// Keeping what differs from `id` takes out exactly the occurrences of
/// `id`, and keeps every other element in order.
pub proof fn lemma_filter_is_without(s: Seq<u128>, id: u128)
    ensures
        is_without(s, s.filter(other_than(id)), id),
    decreases s.len(),
{
    reveal_with_fuel(Seq::filter, 1);
    let f = s.filter(other_than(id));
    if s.len() == 0 {
        assert(placed_in_order(s, f, id, Seq::<int>::empty()));
    } else {
        let t = s.drop_last();
        let x = s.last();
        assert(t.push(x) =~= s);
        lemma_filter_is_without(t, id);
        t.lemma_filter_push(x, other_than(id));
        let g = t.filter(other_than(id));
        let pos = choose|pos: Seq<int>| placed_in_order(t, g, id, pos);
        if x != id {
            let pos2 = pos.push(t.len() as int);
            assert(f == g.push(x));
            assert forall|p: int| 0 <= p < s.len() && #[trigger] s[p] != id implies exists|k: int|
                0 <= k < f.len() && pos2[k] == p by {
                if p < t.len() {
                    assert(t[p] == s[p]);
                    let k = choose|k: int| 0 <= k < g.len() && pos[k] == p;
                    assert(pos2[k] == p);
                } else {
                    assert(pos2[g.len() as int] == p);
                }
            }
            assert forall|k: int| 0 <= k < f.len() implies 0 <= #[trigger] pos2[k] < s.len() && s[pos2[k]] == f[k] by {
                if k < g.len() {
                    assert(t[pos[k]] == s[pos[k]]);
                }
            }
            assert(placed_in_order(s, f, id, pos2));
            assert(!f.contains(id)) by {
                if f.contains(id) {
                    let k = choose|k: int| 0 <= k < f.len() && f[k] == id;
                    if k < g.len() {
                        assert(g.contains(id));
                    }
                }
            }
        } else {
            assert(f == g);
            assert forall|p: int| 0 <= p < s.len() && #[trigger] s[p] != id implies exists|k: int|
                0 <= k < f.len() && pos[k] == p by {
                assert(p < t.len());
                assert(t[p] == s[p]);
            }
            assert forall|k: int| 0 <= k < f.len() implies 0 <= #[trigger] pos[k] < s.len() && s[pos[k]] == f[k] by {
                assert(t[pos[k]] == s[pos[k]]);
            }
            assert(placed_in_order(s, f, id, pos));
        }
    }
}

/// The identifiers of `v` without any occurrence of `id`.
fn without_id(v: &Vec<u128>, id: u128) -> (r: Vec<u128>)
    ensures
        r@ == v@.filter(other_than(id)),
        is_without(v@, r@, id),
{
    proof {
        lemma_filter_is_without(v@, id);
    }
    let ghost pred = other_than(id);
    let mut r: Vec<u128> = Vec::new();
    let mut i: usize = 0;
    proof {
        reveal_with_fuel(Seq::filter, 1);
    }
    assert(v@.take(0) =~= Seq::<u128>::empty());
    while i < v.len()
        invariant
            i <= v.len(),
            pred == other_than(id),
            r@ == v@.take(i as int).filter(pred),
        decreases v.len() - i,
    {
        let x = v[i];
        assert(v@.take(i + 1) =~= v@.take(i as int).push(x));
        proof {
            v@.take(i as int).lemma_filter_push(x, pred);
        }
        if x != id {
            r.push(x);
        }
        i = i + 1;
    }
    assert(v@.take(v.len() as int) =~= v@);
    r
}

/// Whether `id` occurs in `v`.
fn has_id(v: &Vec<u128>, id: u128) -> (r: bool)
    ensures
        r == v@.contains(id),
{
    let mut i: usize = 0;
    while i < v.len()
        invariant
            i <= v.len(),
            forall|j: int| 0 <= j < i ==> v@[j] != id,
        decreases v.len() - i,
    {
        if v[i] == id {
            return true;
        }
        i = i + 1;
    }
    false
}

/// A description with the registration time and device of `previous`.
pub open spec fn keep_registration(d: DescriptionView, previous: DescriptionView) -> DescriptionView {
    DescriptionView {
        created_at: previous.created_at,
        registered_device_id: previous.registered_device_id,
        ..d
    }
}

/// A description with another image.
pub open spec fn with_image(d: DescriptionView, image: Option<Seq<char>>) -> DescriptionView {
    DescriptionView { image_filename: image, ..d }
}

/// An asset without the dependency `id`; unchanged when it does not
/// depend on `id`.
pub open spec fn without_dependency<T: AssetTrait>(v: T::V, id: u128) -> T::V {
    let d = T::description_of(v);
    if d.dependencies.contains(id) {
        T::with_description(
            v,
            DescriptionView { dependencies: d.dependencies.filter(other_than(id)), ..d },
        )
    } else {
        v
    }
}

/// The image files that an update replaces: the one to discard and the
/// one to keep.
pub struct ImageChange {
    pub old_image: Option<String>,
    pub new_image: Option<String>,
}

/// An update decided but not yet applied: the asset it replaces, the
/// asset that takes its place, and the image files to handle first when
/// the image changes.
pub struct UpdatePlan<T> {
    pub previous: T,
    pub updated: T,
    pub image_change: Option<ImageChange>,
}

/// The asset that an update stores, once the new image file has been
/// given its final name `fixed_image` (if it was renamed).
pub open spec fn stored_update<T: AssetTrait>(updated: T::V, fixed_image: Option<Seq<char>>) -> T::V {
    match fixed_image {
        Some(f) => T::with_description(updated, with_image(T::description_of(updated), Some(f))),
        None => updated,
    }
}

/// An asset with its identifier replaced when `m` maps it to another.
pub open spec fn reassigned<T: AssetTrait>(v: T::V, m: Map<u128, u128>) -> T::V {
    if m.contains_key(T::id_of(v)) {
        T::with_id(v, m[T::id_of(v)])
    } else {
        v
    }
}

/// The texts of a list of pairs of strings.
pub open spec fn pair_texts(v: Seq<(String, String)>) -> Seq<(Seq<char>, Seq<char>)> {
    v.map_values(|p: (String, String)| (p.0@, p.1@))
}

/// The text paired with `key` by the first pair whose first text is
/// `key`.
pub open spec fn lookup_text(pairs: Seq<(Seq<char>, Seq<char>)>, key: Seq<char>) -> Option<Seq<char>>
    decreases pairs.len(),
{
    if pairs.len() == 0 {
        None
    } else if pairs[0].0 == key {
        Some(pairs[0].1)
    } else {
        lookup_text(pairs.drop_first(), key)
    }
}

/// The text paired with `key` in `pairs`, if any.
fn find_text(pairs: &Vec<(String, String)>, key: &String) -> (r: Option<String>)
    ensures
        opt_text(r) == lookup_text(pair_texts(pairs@), key@),
{
    let ghost ps = pair_texts(pairs@);
    let mut i: usize = 0;
    assert(ps.skip(0) =~= ps);
    while i < pairs.len()
        invariant
            i <= pairs.len(),
            ps == pair_texts(pairs@),
            lookup_text(ps, key@) == lookup_text(ps.skip(i as int), key@),
        decreases pairs.len() - i,
    {
        assert(ps.skip(i as int)[0] == ps[i as int]);
        if pairs[i].0 == *key {
            return Some(pairs[i].1.clone());
        }
        assert(ps.skip(i as int).drop_first() =~= ps.skip(i + 1));
        i = i + 1;
    }
    None
}

/// The asset that replaces `v` when its image is renamed by `pairs`.
pub open spec fn thumbnail_target<T: AssetTrait>(v: T::V, pairs: Seq<(Seq<char>, Seq<char>)>) -> Option<T::V> {
    let d = T::description_of(v);
    match d.image_filename {
        Some(f) => match lookup_text(pairs, f) {
            Some(g) => Some(T::with_description(v, with_image(d, Some(g)))),
            None => None,
        },
        None => None,
    }
}

/// One step of renaming images: `v`, when it is still there and its image
/// is renamed, gives way to its renamed form.
pub open spec fn thumbnail_step<T: AssetTrait>(
    s: Set<T::V>,
    v: T::V,
    pairs: Seq<(Seq<char>, Seq<char>)>,
) -> Set<T::V> {
    match thumbnail_target::<T>(v, pairs) {
        Some(w) => if s.contains(v) {
            s.remove(v).insert(w)
        } else {
            s
        },
        None => s,
    }
}

/// The assets after renaming images of the assets of `order`, one after
/// the other, starting from `s`.
pub open spec fn thumbnails_replaced<T: AssetTrait>(
    s: Set<T::V>,
    order: Seq<T::V>,
    pairs: Seq<(Seq<char>, Seq<char>)>,
) -> Set<T::V>
    decreases order.len(),
{
    if order.len() == 0 {
        s
    } else {
        thumbnail_step::<T>(thumbnails_replaced::<T>(s, order.drop_last(), pairs), order.last(), pairs)
    }
}

/// The assets of a list of files, one file after the other.
pub open spec fn loaded<T: View>(files: Seq<Vec<T>>) -> Seq<T::V>
    decreases files.len(),
{
    if files.len() == 0 {
        Seq::empty()
    } else {
        loaded(files.drop_last()) + views(files.last()@)
    }
}

/// `v` occurs in `s` before any other asset with its identifier.
pub open spec fn first_with_its_id<T: AssetTrait>(s: Seq<T::V>, v: T::V) -> bool {
    exists|i: int|
        0 <= i < s.len() && s[i] == v && forall|j: int|
            0 <= j < i ==> T::id_of(#[trigger] s[j]) != T::id_of(v)
}

/// All assets of `files`, one file after the other.
fn concat_files<T: AssetTrait>(files: &Vec<Vec<T>>) -> (r: Vec<T>)
    ensures
        views(r@) == loaded(files@),
{
    let mut all: Vec<T> = Vec::new();
    let mut f: usize = 0;
    assert(files@.take(0) =~= Seq::<Vec<T>>::empty());
    assert(views(all@) =~= loaded(files@.take(0)));
    while f < files.len()
        invariant
            f <= files.len(),
            views(all@) == loaded(files@.take(f as int)),
        decreases files.len() - f,
    {
        let file = &files[f];
        let ghost base = views(all@);
        let mut k: usize = 0;
        assert(views(file@).take(0) =~= Seq::<T::V>::empty());
        assert(base + views(file@).take(0) =~= base);
        while k < file.len()
            invariant
                k <= file.len(),
                views(all@) == base + views(file@).take(k as int),
            decreases file.len() - k,
        {
            let ghost prev = views(all@);
            all.push(file[k].duplicate());
            assert(views(all@) =~= prev.push(file@[k as int]@));
            assert(views(file@).take(k + 1) =~= views(file@).take(k as int).push(file@[k as int]@));
            assert(base + views(file@).take(k + 1) =~= (base + views(file@).take(k as int)).push(
                file@[k as int]@,
            ));
            k = k + 1;
        }
        assert(views(file@).take(file.len() as int) =~= views(file@));
        assert(files@.take(f + 1).drop_last() =~= files@.take(f as int));
        assert(files@.take(f + 1).last() == file);
        f = f + 1;
    }
    assert(files@.take(files.len() as int) =~= files@);
    all
}

/// The assets of `all` that come before every other asset with their
/// identifier, in their order.
fn first_of_each_id<T: AssetTrait>(all: &Vec<T>) -> (r: Vec<T>)
    ensures
        views(r@).no_duplicates(),
        forall|v: T::V| views(r@).to_set().contains(v) <==> first_with_its_id::<T>(views(all@), v),
        forall|a: int, b: int|
            0 <= a < b < r.len() ==> T::id_of(#[trigger] r@[a]@) != T::id_of(#[trigger] r@[b]@),
{
    let ghost s = views(all@);
    let mut out: Vec<T> = Vec::new();
    let mut i: usize = 0;
    while i < all.len()
        invariant
            i <= all.len(),
            s == views(all@),
            forall|a: int, b: int|
                0 <= a < b < out.len() ==> T::id_of(#[trigger] out@[a]@) != T::id_of(
                    #[trigger] out@[b]@,
                ),
            forall|v: T::V|
                views(out@).to_set().contains(v) <==> first_with_its_id::<T>(s.take(i as int), v),
            forall|k: int|
                0 <= k < i ==> exists|m: int|
                    0 <= m < out.len() && T::id_of(#[trigger] out@[m]@) == T::id_of(
                        #[trigger] s[k],
                    ),
            forall|m: int|
                0 <= m < out.len() ==> exists|k: int|
                    0 <= k < i && T::id_of(#[trigger] out@[m]@) == T::id_of(#[trigger] s[k]),
        decreases all.len() - i,
    {
        let x = &all[i];
        let ghost xv = x@;
        assert(s[i as int] == xv);
        let ghost pre = s.take(i as int);
        let ghost post = s.take(i + 1);
        assert(post =~= pre.push(xv));
        let id = x.get_id();
        match position_of_id(&out, id) {
            Some(m) => {
                let ghost k = choose|k: int| 0 <= k < i && T::id_of(out@[m as int]@) == T::id_of(s[k]);
                assert forall|v: T::V| first_with_its_id::<T>(post, v) <==> first_with_its_id::<T>(
                    pre,
                    v,
                ) by {
                    if first_with_its_id::<T>(post, v) {
                        let w = choose|w: int|
                            0 <= w < post.len() && post[w] == v && forall|j: int|
                                0 <= j < w ==> T::id_of(#[trigger] post[j]) != T::id_of(v);
                        if w == i {
                            assert(post[k] == s[k]);
                            assert(false);
                        }
                        assert(forall|j: int| 0 <= j < w ==> post[j] == pre[j]);
                    }
                    if first_with_its_id::<T>(pre, v) {
                        let w = choose|w: int|
                            0 <= w < pre.len() && pre[w] == v && forall|j: int|
                                0 <= j < w ==> T::id_of(#[trigger] pre[j]) != T::id_of(v);
                        assert(post[w] == v);
                        assert(forall|j: int| 0 <= j < w ==> post[j] == pre[j]);
                    }
                }
                assert forall|kk: int| 0 <= kk < i + 1 implies exists|mm: int|
                    0 <= mm < out.len() && T::id_of(#[trigger] out@[mm]@) == T::id_of(
                        #[trigger] s[kk],
                    ) by {
                    if kk == i {
                        assert(T::id_of(out@[m as int]@) == T::id_of(s[kk]));
                    }
                }
            },
            None => {
                let ghost before = out@;
                assert forall|k: int| 0 <= k < i implies T::id_of(#[trigger] s[k]) != T::id_of(xv) by {
                    let m = choose|m: int|
                        0 <= m < out.len() && T::id_of(#[trigger] out@[m]@) == T::id_of(s[k]);
                }
                assert(!views(out@).contains(xv)) by {
                    if views(out@).contains(xv) {
                        let m = choose|m: int| 0 <= m < views(out@).len() && views(out@)[m] == xv;
                        assert(out@[m]@ == xv);
                    }
                }
                proof {
                    lemma_push_unique(views(out@), xv);
                }
                out.push(x.duplicate());
                assert(views(out@) =~= views(before).push(xv));
                assert forall|v: T::V| first_with_its_id::<T>(post, v) <==> (first_with_its_id::<T>(
                    pre,
                    v,
                ) || v == xv) by {
                    if first_with_its_id::<T>(post, v) {
                        let w = choose|w: int|
                            0 <= w < post.len() && post[w] == v && forall|j: int|
                                0 <= j < w ==> T::id_of(#[trigger] post[j]) != T::id_of(v);
                        if w < i {
                            assert(forall|j: int| 0 <= j < w ==> post[j] == pre[j]);
                            assert(pre[w] == v);
                        }
                    }
                    if first_with_its_id::<T>(pre, v) {
                        let w = choose|w: int|
                            0 <= w < pre.len() && pre[w] == v && forall|j: int|
                                0 <= j < w ==> T::id_of(#[trigger] pre[j]) != T::id_of(v);
                        assert(post[w] == v);
                        assert(forall|j: int| 0 <= j < w ==> post[j] == pre[j]);
                    }
                    if v == xv {
                        assert(post[i as int] == xv);
                        assert(forall|j: int| 0 <= j < i ==> post[j] == s[j]);
                    }
                }
                assert forall|kk: int| 0 <= kk < i + 1 implies exists|mm: int|
                    0 <= mm < out.len() && T::id_of(#[trigger] out@[mm]@) == T::id_of(
                        #[trigger] s[kk],
                    ) by {
                    if kk == i {
                        assert(T::id_of(out@[i as int - i as int + before.len()]@) == T::id_of(s[kk]));
                    } else {
                        let mm = choose|mm: int|
                            0 <= mm < before.len() && T::id_of(#[trigger] before[mm]@) == T::id_of(s[kk]);
                        assert(out@[mm] == before[mm]);
                    }
                }
                assert forall|mm: int| 0 <= mm < out.len() implies exists|k: int|
                    0 <= k < i + 1 && T::id_of(#[trigger] out@[mm]@) == T::id_of(#[trigger] s[k]) by {
                    if mm == before.len() {
                        assert(T::id_of(out@[mm]@) == T::id_of(s[i as int]));
                    } else {
                        assert(out@[mm] == before[mm]);
                        let k = choose|k: int|
                            0 <= k < i && T::id_of(#[trigger] before[mm]@) == T::id_of(s[k]);
                    }
                }
                assert forall|a: int, b: int| 0 <= a < b < out.len() implies T::id_of(
                    #[trigger] out@[a]@,
                ) != T::id_of(#[trigger] out@[b]@) by {
                    if b == before.len() {
                        assert(out@[a] == before[a]);
                        let k = choose|k: int|
                            0 <= k < i && T::id_of(#[trigger] before[a]@) == T::id_of(s[k]);
                    } else {
                        assert(out@[a] == before[a]);
                        assert(out@[b] == before[b]);
                    }
                }
            },
        }
        i = i + 1;
    }
    assert(s.take(all.len() as int) =~= s);
    out
}

/// What a device writes after a change: the name of its own file and
/// the assets that the file is to hold.
pub struct SaveRequest<T> {
    pub file_name: String,
    pub assets: Vec<T>,
}

/// The assets of one kind, as one device holds them.
pub struct JsonAssetContainer<T: AssetTrait> {
    data_dir: String,
    device_id: u128,
    assets: Vec<T>,
}

impl<T: AssetTrait> View for JsonAssetContainer<T> {
    type V = Set<T::V>;

    open spec fn view(&self) -> Set<T::V> {
        self.entries().to_set()
    }
}

impl<T: AssetTrait> JsonAssetContainer<T> {
    /// The assets in the order in which they are kept.
    pub closed spec fn entries(&self) -> Seq<T::V> {
        views(self.assets@)
    }

    /// The folder under which the metadata folder lies.
    pub closed spec fn folder(&self) -> Seq<char> {
        self.data_dir@
    }

    /// The device that holds the collection.
    pub closed spec fn device(&self) -> u128 {
        self.device_id
    }

    /// No asset is kept twice.
    #[verifier::type_invariant]
    closed spec fn wf(&self) -> bool {
        self.entries().no_duplicates()
    }

    /// `req` writes the current contents to this device's own file.
    pub open spec fn saved_by(&self, req: SaveRequest<T>) -> bool {
        &&& req.file_name@ == device_file_name(T::kind_prefix(), self.device())
        &&& views(req.assets@) == self.entries()
    }

    /// An empty collection of the device `device_id`, whose files lie
    /// under `data_dir`.
    pub fn create(data_dir: String, device_id: u128) -> (r: Self)
        ensures
            r@ == Set::<T::V>::empty(),
            r.folder() == data_dir@,
            r.device() == device_id,
    {
        let r = JsonAssetContainer { data_dir, device_id, assets: Vec::new() };
        assert(r.entries() =~= Seq::<T::V>::empty());
        r
    }

    /// The folder under which the metadata folder lies.
    pub fn data_dir(&self) -> (r: &String)
        ensures
            r@ == self.folder(),
    {
        &self.data_dir
    }

    /// The device that holds the collection.
    pub fn device_id(&self) -> (r: u128)
        ensures
            r == self.device(),
    {
        self.device_id
    }

    /// Copies of all assets.
    pub fn get_all(&self) -> (r: Vec<T>)
        ensures
            views(r@) == self.entries(),
            views(r@).no_duplicates(),
            views(r@).to_set() == self@,
            r.len() == self@.len(),
    {
        proof {
            use_type_invariant(self);
            self.entries().unique_seq_to_set();
        }
        copy_all(&self.assets)
    }

    /// An asset with identifier `id`, if there is one.
    pub fn get_asset(&self, id: u128) -> (r: Option<T>)
        ensures
            match r {
                Some(a) => self@.contains(a@) && T::id_of(a@) == id,
                None => forall|v: T::V| self@.contains(v) ==> T::id_of(v) != id,
            },
    {
        match position_of_id(&self.assets, id) {
            Some(i) => {
                assert(self.entries()[i as int] == self.assets@[i as int]@);
                Some(self.assets[i].duplicate())
            },
            None => {
                assert forall|v: T::V| self@.contains(v) implies T::id_of(v) != id by {
                    let k = choose|k: int| 0 <= k < self.entries().len() && self.entries()[k] == v;
                    assert(self.entries()[k] == self.assets@[k]@);
                }
                None
            },
        }
    }

    /// Takes the assets out, leaving the collection empty.
    fn take_assets(&mut self) -> (r: Vec<T>)
        ensures
            views(r@) == old(self).entries(),
            final(self).entries() == Seq::<T::V>::empty(),
            final(self).folder() == old(self).folder(),
            final(self).device() == old(self).device(),
    {
        let mut r: Vec<T> = Vec::new();
        std::mem::swap(&mut r, &mut self.assets);
        assert(self.entries() =~= Seq::<T::V>::empty());
        r
    }

    /// What this device writes for the current contents.
    fn save_request(&self) -> (r: SaveRequest<T>)
        ensures
            self.saved_by(r),
    {
        SaveRequest { file_name: T::device_filename(self.device_id), assets: copy_all(&self.assets) }
    }

    /// Adds an asset; an equal asset already there is left as it is.
    pub fn add_asset_and_save(&mut self, asset: T) -> (r: SaveRequest<T>)
        ensures
            final(self)@ == old(self)@.insert(asset@),
            final(self).folder() == old(self).folder(),
            final(self).device() == old(self).device(),
            final(self).saved_by(r),
    {
        proof {
            use_type_invariant(&*self);
        }
        let mut assets = self.take_assets();
        insert_unique(&mut assets, asset);
        self.assets = assets;
        self.save_request()
    }

    /// Decides an update by `asset`: it replaces an asset with the same
    /// identifier, keeps that asset's registration time and device, and
    /// names the image files to handle when the image changes. Fails with
    /// "Asset not found" when no asset has that identifier.
    pub fn prepare_update(&self, asset: T) -> (r: Result<UpdatePlan<T>, String>)
        ensures
            match r {
                Ok(plan) => {
                    let prev = T::description_of(plan.previous@);
                    let new = T::description_of(asset@);
                    &&& self@.contains(plan.previous@)
                    &&& T::id_of(plan.previous@) == T::id_of(asset@)
                    &&& plan.updated@ == T::with_description(asset@, keep_registration(new, prev))
                    &&& T::id_of(plan.updated@) == T::id_of(asset@)
                    &&& T::with_description(plan.updated@, new) == asset@
                    &&& T::description_of(plan.updated@).created_at == prev.created_at
                    &&& T::description_of(plan.updated@).registered_device_id == prev.registered_device_id
                    &&& (DescriptionView {
                        created_at: new.created_at,
                        registered_device_id: new.registered_device_id,
                        ..T::description_of(plan.updated@)
                    }) == new
                    &&& (plan.image_change is Some <==> prev.image_filename != new.image_filename)
                    &&& (plan.image_change matches Some(c) ==> opt_text(c.old_image)
                        == prev.image_filename && opt_text(c.new_image) == new.image_filename)
                },
                Err(e) => {
                    &&& e@ == "Asset not found"@
                    &&& forall|v: T::V| self@.contains(v) ==> T::id_of(v) != T::id_of(asset@)
                },
            },
    {
        let id = asset.get_id();
        match position_of_id(&self.assets, id) {
            None => {
                assert forall|v: T::V| self@.contains(v) implies T::id_of(v) != id by {
                    let k = choose|k: int| 0 <= k < self.entries().len() && self.entries()[k] == v;
                    assert(self.entries()[k] == self.assets@[k]@);
                }
                Err(String::from_str("Asset not found"))
            },
            Some(i) => {
                assert(self.entries()[i as int] == self.assets@[i as int]@);
                let previous = self.assets[i].duplicate();
                let created_at = previous.get_description().created_at;
                let registered = previous.get_description().registered_device_id;
                let changed = !same_opt_text(
                    &previous.get_description().image_filename,
                    &asset.get_description().image_filename,
                );
                let image_change = if changed {
                    Some(
                        ImageChange {
                            old_image: copy_opt_text(&previous.get_description().image_filename),
                            new_image: copy_opt_text(&asset.get_description().image_filename),
                        },
                    )
                } else {
                    None
                };
                let ghost a0 = asset@;
                let mut updated = asset;
                let d = updated.get_description_as_mut();
                d.created_at = created_at;
                d.registered_device_id = registered;
                proof {
                    let dv = T::description_of(a0);
                    let pv = T::description_of(previous@);
                    assert(updated@ == T::with_description(a0, keep_registration(dv, pv)));
                    T::lemma_accessors(a0, T::id_of(a0), keep_registration(dv, pv));
                    T::lemma_description_replaced_twice(a0, keep_registration(dv, pv), dv);
                    T::lemma_accessors(a0, T::id_of(a0), dv);
                    assert((DescriptionView {
                        created_at: dv.created_at,
                        registered_device_id: dv.registered_device_id,
                        ..keep_registration(dv, pv)
                    }) =~= dv);
                }
                Ok(UpdatePlan { previous, updated, image_change })
            },
        }
    }

    /// Applies an update: the planned asset, with its image renamed to
    /// `fixed_image` when that is given, takes the place of the previous
    /// one.
    pub fn update_asset_and_save(&mut self, plan: UpdatePlan<T>, fixed_image: Option<String>) -> (r:
        SaveRequest<T>)
        ensures
            final(self)@ == old(self)@.remove(plan.previous@).insert(
                stored_update::<T>(plan.updated@, opt_text(fixed_image)),
            ),
            final(self).folder() == old(self).folder(),
            final(self).device() == old(self).device(),
            final(self).saved_by(r),
    {
        proof {
            use_type_invariant(&*self);
        }
        let mut assets = self.take_assets();
        match position_of(&assets, &plan.previous) {
            Some(i) => {
                let _ = take_at(&mut assets, i);
            },
            None => {
                assert(views(assets@).to_set().remove(plan.previous@) =~= views(assets@).to_set());
            },
        }
        let mut updated = plan.updated;
        match fixed_image {
            Some(f) => {
                let d = updated.get_description_as_mut();
                d.image_filename = Some(f);
            },
            None => {},
        }
        insert_unique(&mut assets, updated);
        self.assets = assets;
        self.save_request()
    }

    /// Removes the dependency `id` from every asset that has it.
    pub fn delete_dependency(&mut self, id: u128) -> (r: SaveRequest<T>)
        ensures
            final(self)@ == old(self)@.map(|v: T::V| without_dependency::<T>(v, id)),
            final(self).folder() == old(self).folder(),
            final(self).device() == old(self).device(),
            final(self).saved_by(r),
    {
        let ghost f = |v: T::V| without_dependency::<T>(v, id);
        let ghost start = self.entries();
        let mut out: Vec<T> = Vec::new();
        let mut i: usize = 0;
        assert(start.take(0).map_values(f) =~= Seq::<T::V>::empty());
        assert(views(out@) =~= Seq::<T::V>::empty());
        while i < self.assets.len()
            invariant
                i <= self.assets.len(),
                start == self.entries(),
                f == (|v: T::V| without_dependency::<T>(v, id)),
                views(out@).no_duplicates(),
                views(out@).to_set() == start.take(i as int).map_values(f).to_set(),
            decreases self.assets.len() - i,
        {
            let a = &self.assets[i];
            let ghost x = a@;
            assert(start[i as int] == x);
            let mut b = a.duplicate();
            if has_id(&a.get_description().dependencies, id) {
                let kept = without_id(&a.get_description().dependencies, id);
                let ghost dx = T::description_of(x);
                let ghost kv = kept@;
                let d = b.get_description_as_mut();
                d.dependencies = kept;
                assert(d@ =~= DescriptionView { dependencies: kv, ..dx });
            }
            assert(b@ == f(x));
            assert(start.take(i + 1).map_values(f) =~= start.take(i as int).map_values(f).push(f(x)));
            proof {
                start.take(i as int).map_values(f).lemma_push_to_set_commute(f(x));
            }
            insert_unique(&mut out, b);
            i = i + 1;
        }
        assert(start.take(start.len() as int) =~= start);
        proof {
            lemma_map_values_to_set(start, f);
        }
        self.assets = out;
        self.save_request()
    }

    /// Adds the assets of `other`, each with its identifier replaced when
    /// `reassign_map` maps it to another.
    pub fn merge_from(&mut self, other: &Self, reassign_map: &HashMap<u128, u128>) -> (r: SaveRequest<T>)
        ensures
            final(self)@ == old(self)@.union(
                other@.map(|v: T::V| reassigned::<T>(v, reassign_map@)),
            ),
            final(self).folder() == old(self).folder(),
            final(self).device() == old(self).device(),
            final(self).saved_by(r),
    {
        broadcast use vstd::std_specs::hash::group_hash_axioms;

        proof {
            use_type_invariant(&*self);
        }
        let ghost g = |v: T::V| reassigned::<T>(v, reassign_map@);
        let ghost start = self@;
        let mut assets = self.take_assets();
        let ghost theirs = other.entries();
        let mut i: usize = 0;
        assert(theirs.take(0).map_values(g).to_set() =~= Set::<T::V>::empty());
        assert(start.union(Set::<T::V>::empty()) =~= start);
        while i < other.assets.len()
            invariant
                i <= other.assets.len(),
                theirs == other.entries(),
                g == (|v: T::V| reassigned::<T>(v, reassign_map@)),
                views(assets@).no_duplicates(),
                self.folder() == old(self).folder(),
                self.device() == old(self).device(),
                views(assets@).to_set() == start.union(theirs.take(i as int).map_values(g).to_set()),
            decreases other.assets.len() - i,
        {
            let a = &other.assets[i];
            let ghost x = a@;
            assert(theirs[i as int] == x);
            let mut b = a.duplicate();
            let id = b.get_id();
            match reassign_map.get(&id) {
                Some(new_id) => {
                    b.set_id(*new_id);
                },
                None => {},
            }
            assert(b@ == g(x));
            assert(theirs.take(i + 1).map_values(g) =~= theirs.take(i as int).map_values(g).push(g(x)));
            proof {
                theirs.take(i as int).map_values(g).lemma_push_to_set_commute(g(x));
            }
            insert_unique(&mut assets, b);
            assert(views(assets@).to_set() =~= start.union(theirs.take(i + 1).map_values(g).to_set()));
            i = i + 1;
        }
        assert(theirs.take(theirs.len() as int) =~= theirs);
        proof {
            lemma_map_values_to_set(theirs, g);
        }
        self.assets = assets;
        self.save_request()
    }

    /// Renames images by `map`: the asset whose image is the first text of
    /// a pair gets the second text of the first such pair as its image. The
    /// assets are taken in the order in which they are kept, and an asset
    /// that is no longer there when its turn comes is left out.
    pub fn replace_thumbnails(&mut self, map: &Vec<(String, String)>) -> (r: SaveRequest<T>)
        ensures
            final(self)@ == thumbnails_replaced::<T>(old(self)@, old(self).entries(), pair_texts(map@)),
            final(self).folder() == old(self).folder(),
            final(self).device() == old(self).device(),
            final(self).saved_by(r),
    {
        proof {
            use_type_invariant(&*self);
        }
        let ghost pairs = pair_texts(map@);
        let ghost start = self@;
        let ghost order = self.entries();
        let mut assets = self.take_assets();
        let snapshot = copy_all(&assets);
        let mut i: usize = 0;
        assert(order.take(0).len() == 0);
        while i < snapshot.len()
            invariant
                i <= snapshot.len(),
                views(snapshot@) == order,
                pairs == pair_texts(map@),
                views(assets@).no_duplicates(),
                self.folder() == old(self).folder(),
                self.device() == old(self).device(),
                views(assets@).to_set() == thumbnails_replaced::<T>(start, order.take(i as int), pairs),
            decreases snapshot.len() - i,
        {
            let a = &snapshot[i];
            let ghost x = a@;
            assert(order[i as int] == x);
            assert(order.take(i + 1).drop_last() =~= order.take(i as int));
            assert(order.take(i + 1).last() == x);
            match &a.get_description().image_filename {
                Some(f) => {
                    match find_text(map, f) {
                        Some(g) => {
                            let ghost gv = g@;
                            let mut b = a.duplicate();
                            let ghost dx = T::description_of(x);
                            let d = b.get_description_as_mut();
                            d.image_filename = Some(g);
                            assert(d@ =~= with_image(dx, Some(gv)));
                            assert(thumbnail_target::<T>(x, pairs) == Some(b@));
                            match position_of(&assets, a) {
                                Some(k) => {
                                    assert(views(assets@)[k as int] == x);
                                    let _ = take_at(&mut assets, k);
                                    insert_unique(&mut assets, b);
                                },
                                None => {},
                            }
                        },
                        None => {},
                    }
                },
                None => {},
            }
            i = i + 1;
        }
        assert(order.take(order.len() as int) =~= order);
        self.assets = assets;
        self.save_request()
    }

    /// Replaces the contents by the assets of the per-device files
    /// `files`, taken in the order given: of several assets with one
    /// identifier, the first one is kept.
    pub fn load(&mut self, files: Vec<Vec<T>>)
        ensures
            forall|v: T::V| final(self)@.contains(v) <==> first_with_its_id::<T>(loaded(files@), v),
            ids_unique::<T>(final(self)@),
            final(self).folder() == old(self).folder(),
            final(self).device() == old(self).device(),
    {
        let all = concat_files(&files);
        let merged = first_of_each_id(&all);
        assert forall|a: T::V, b: T::V|
            views(merged@).to_set().contains(a) && views(merged@).to_set().contains(b) && T::id_of(a)
                == T::id_of(b) implies a == b by {
            let ia = choose|ia: int| 0 <= ia < views(merged@).len() && views(merged@)[ia] == a;
            let ib = choose|ib: int| 0 <= ib < views(merged@).len() && views(merged@)[ib] == b;
            assert(merged@[ia]@ == a);
            assert(merged@[ib]@ == b);
            if ia < ib {
                assert(T::id_of(merged@[ia]@) != T::id_of(merged@[ib]@));
            } else if ib < ia {
                assert(T::id_of(merged@[ib]@) != T::id_of(merged@[ia]@));
            }
        }
        self.assets = merged;
    }

    /// Removes an asset with identifier `id`; `None` when there is none,
    /// in which case nothing changes and nothing is written.
    pub fn delete_asset_and_save(&mut self, id: u128) -> (r: Option<SaveRequest<T>>)
        ensures
            final(self).folder() == old(self).folder(),
            final(self).device() == old(self).device(),
            match r {
                Some(req) => {
                    &&& exists|v: T::V|
                        old(self)@.contains(v) && T::id_of(v) == id && final(self)@ == old(self)@.remove(v)
                    &&& final(self).saved_by(req)
                },
                None => {
                    &&& forall|v: T::V| old(self)@.contains(v) ==> T::id_of(v) != id
                    &&& final(self)@ == old(self)@
                },
            },
    {
        match position_of_id(&self.assets, id) {
            Some(i) => {
                proof {
                    use_type_invariant(&*self);
                }
                let ghost before = self@;
                let ghost x = self.assets@[i as int]@;
                assert(self.entries()[i as int] == x);
                let mut assets = self.take_assets();
                let _ = take_at(&mut assets, i);
                self.assets = assets;
                assert(before.contains(x));
                Some(self.save_request())
            },
            None => {
                assert forall|v: T::V| self@.contains(v) implies T::id_of(v) != id by {
                    let k = choose|k: int| 0 <= k < self.entries().len() && self.entries()[k] == v;
                    assert(self.entries()[k] == self.assets@[k]@);
                }
                None
            },
        }
    }
}

} // verus!
