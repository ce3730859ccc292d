//! Names of the per-device metadata files in the shared folder.
//!
//! Every machine writes only `<kind>__<device id>.json`; a reader picks up
//! every file of that shape and merges them in name order.
use vstd::prelude::*;
use vstd::string::*;
use crate::ident::{uuid_string, uuid_text, lemma_hex_digits_shape, lemma_uuid_text_injective};
use crate::text::{starts_with, ends_with, has_prefix, has_suffix, texts, is_sorted, sort_names};

verus! {

/// What separates the kind of a file from the device it belongs to.
pub open spec fn separator() -> Seq<char> {
    "__"@
}

/// The extension of every metadata file.
pub open spec fn json_extension() -> Seq<char> {
    ".json"@
}

/// The name of the file of kind `kind` that the device `device_id` writes.
pub open spec fn device_file_name(kind: Seq<char>, device_id: u128) -> Seq<char> {
    kind + separator() + uuid_text(device_id) + json_extension()
}

/// Whether a file name has the shape of a per-device file of kind `kind`.
pub open spec fn is_device_file_name(name: Seq<char>, kind: Seq<char>) -> bool {
    has_prefix(name, kind + separator()) && has_suffix(name, json_extension())
}

/// The name of the file of kind `kind` written by the device `device_id`.
pub fn device_file_name_of(kind: &str, device_id: u128) -> (r: String)
    ensures
        r@ == device_file_name(kind@, device_id),
{
    let mut s = String::from_str(kind);
    s.append("__");
    let id = uuid_string(device_id);
    s.append(id.as_str());
    s.append(".json");
    s
}

/// Whether `name` is a per-device file of kind `kind`.
pub fn is_device_file(name: &str, kind: &str) -> (r: bool)
    ensures
        r == is_device_file_name(name@, kind@),
{
    let mut prefix = String::from_str(kind);
    prefix.append("__");
    starts_with(name, prefix.as_str()) && ends_with(name, ".json")
}

/// The per-device files of kind `kind` among `names`, in ascending name
/// order.
pub fn select_device_files(names: &Vec<String>, kind: &str) -> (r: Vec<String>)
    ensures
        is_sorted(texts(r@)),
        texts(r@).to_multiset() == texts(names@).filter(
            |n: Seq<char>| is_device_file_name(n, kind@),
        ).to_multiset(),
{
    let ghost pred = |n: Seq<char>| is_device_file_name(n, kind@);
    let mut picked: Vec<String> = Vec::new();
    let mut i: usize = 0;
    assert(texts(names@).take(0) =~= Seq::<Seq<char>>::empty());
    proof {
        reveal_with_fuel(Seq::filter, 1);
    }
    assert(texts(picked@) =~= texts(names@).take(0).filter(pred));
    while i < names.len()
        invariant
            i <= names.len(),
            pred == (|n: Seq<char>| is_device_file_name(n, kind@)),
            texts(picked@) == texts(names@).take(i as int).filter(pred),
        decreases names.len() - i,
    {
        let name = &names[i];
        assert(texts(names@).take(i + 1) =~= texts(names@).take(i as int).push(name@));
        proof {
            texts(names@).take(i as int).lemma_filter_push(name@, pred);
        }
        let ghost prev = texts(picked@);
        if is_device_file(name.as_str(), kind) {
            picked.push(name.clone());
            assert(texts(picked@) =~= prev.push(name@));
            assert(texts(picked@) == texts(names@).take(i + 1).filter(pred));
        } else {
            assert(!pred(name@));
            assert(texts(picked@) == texts(names@).take(i + 1).filter(pred));
        }
        i = i + 1;
    }
    assert(texts(names@).take(names.len() as int) =~= texts(names@));
    sort_names(picked)
}

/// Whether a file of the old single-file layout should be taken over as
/// this device's own file: it exists and this device has no file yet.
pub fn should_adopt_legacy_file(legacy_exists: bool, device_file_exists: bool) -> (r: bool)
    ensures
        r == (legacy_exists && !device_file_exists),
{
    legacy_exists && !device_file_exists
}

/// Taking over the old single file happens once: afterwards the old file
/// is gone and the device's own file exists, so it is not taken over again.
pub proof fn lemma_legacy_adoption_once(legacy_exists: bool, device_file_exists: bool)
    ensures
        ({
            let adopt = legacy_exists && !device_file_exists;
            let legacy_after = if adopt { false } else { legacy_exists };
            let device_after = if adopt { true } else { device_file_exists };
            !(legacy_after && !device_after)
        }),
{
}

/// A file written by a device is among the files that every reader of
/// that kind picks up.
pub proof fn lemma_written_file_is_read(kind: Seq<char>, device_id: u128)
    ensures
        is_device_file_name(device_file_name(kind, device_id), kind),
{
    reveal_strlit("__");
    reveal_strlit(".json");
    let name = device_file_name(kind, device_id);
    let p = kind + separator();
    assert(name.subrange(0, p.len() as int) =~= p);
    assert(name.subrange(name.len() - 5, name.len() as int) =~= json_extension());
}

/// The single file of the old layout, `<kind>.json`, is never taken for
/// a per-device file of its kind.
pub proof fn lemma_legacy_file_not_per_device(kind: Seq<char>)
    ensures
        !is_device_file_name(kind + json_extension(), kind),
{
    reveal_strlit("__");
    reveal_strlit(".json");
    let name = kind + json_extension();
    let p = kind + separator();
    if is_device_file_name(name, kind) {
        assert(name.subrange(0, p.len() as int)[kind.len() as int] == p[kind.len() as int]);
        assert(name[kind.len() as int] == '.');
        assert(p[kind.len() as int] == '_');
    }
}

/// Two distinct devices never write to the same file: a device's file
/// name determines the device.
pub proof fn lemma_device_file_names_distinct(kind: Seq<char>, a: u128, b: u128)
    requires
        device_file_name(kind, a) == device_file_name(kind, b),
    ensures
        a == b,
{
    reveal_strlit("__");
    reveal_strlit(".json");
    lemma_hex_digits_shape(a as nat, 32);
    lemma_hex_digits_shape(b as nat, 32);
    let na = device_file_name(kind, a);
    let nb = device_file_name(kind, b);
    let start: int = kind.len() as int + 2;
    assert(uuid_text(a).len() == 36);
    assert(uuid_text(b).len() == 36);
    assert(na.subrange(start, start + 36) =~= uuid_text(a));
    assert(nb.subrange(start, start + 36) =~= uuid_text(b));
    lemma_uuid_text_injective(a, b);
}

} // verus!
