//! The small per-device files through which devices learn each other's
//! names.
use vstd::prelude::*;
use std::collections::HashMap;
use crate::file_names::{device_file_name, device_file_name_of, is_device_file, is_device_file_name};

verus! {

/// The kind of the per-device files that hold device names.
pub open spec fn device_kind() -> Seq<char> {
    "device"@
}

/// The name of the file in which the device `device_id` records its name.
pub fn device_filename(device_id: u128) -> (r: String)
    ensures
        r@ == device_file_name(device_kind(), device_id),
{
    device_file_name_of("device", device_id)
}

/// Whether `name` is the file in which some device records its name.
pub fn is_device_name_file(name: &str) -> (r: bool)
    ensures
        r == is_device_file_name(name@, device_kind()),
{
    is_device_file(name, "device")
}

/// What a device records of itself.
#[derive(Debug, Clone, PartialEq, Eq)]
pub struct DeviceEntry {
    pub id: u128,
    pub name: String,
}

/// A device and its name, as shown to the user.
#[derive(Debug, Clone, PartialEq, Eq)]
pub struct DeviceInfo {
    pub id: u128,
    pub name: String,
}

/// The identifiers and names of a list of entries.
pub open spec fn entry_pairs(v: Seq<DeviceEntry>) -> Seq<(u128, Seq<char>)> {
    v.map_values(|e: DeviceEntry| (e.id, e.name@))
}

/// The name of each device, the later entry winning when a device
/// occurs twice.
pub open spec fn names_of(s: Seq<(u128, Seq<char>)>) -> Map<u128, Seq<char>>
    decreases s.len(),
{
    if s.len() == 0 {
        Map::empty()
    } else {
        names_of(s.drop_last()).insert(s.last().0, s.last().1)
    }
}

/// The texts of the values of a map.
pub open spec fn text_values(m: Map<u128, String>) -> Map<u128, Seq<char>> {
    m.map_values(|s: String| s@)
}

/// The name of each device among the entries read, in the order read.
pub fn collect_device_names(entries: &Vec<DeviceEntry>) -> (r: HashMap<u128, String>)
    ensures
        text_values(r@) == names_of(entry_pairs(entries@)),
{
    broadcast use vstd::std_specs::hash::group_hash_axioms;

    let mut r: HashMap<u128, String> = HashMap::new();
    let mut i: usize = 0;
    let ghost pairs = entry_pairs(entries@);
    assert(text_values(r@) =~= names_of(pairs.take(0)));
    while i < entries.len()
        invariant
            i <= entries.len(),
            pairs == entry_pairs(entries@),
            text_values(r@) == names_of(pairs.take(i as int)),
        decreases entries.len() - i,
    {
        let e = &entries[i];
        let ghost before = r@;
        r.insert(e.id, e.name.clone());
        assert(pairs.take(i + 1).drop_last() =~= pairs.take(i as int));
        assert(pairs.take(i + 1).last() == (e.id, e.name@));
        assert(text_values(r@) =~= text_values(before).insert(e.id, e.name@));
        i = i + 1;
    }
    assert(pairs.take(entries.len() as int) =~= pairs);
    r
}

/// The name that a device wrote is the name read back for it, as long as
/// no entry read after it names the same device.
pub proof fn lemma_written_name_is_read(s: Seq<(u128, Seq<char>)>, k: int)
    requires
        0 <= k < s.len(),
        forall|j: int| k < j < s.len() ==> (#[trigger] s[j]).0 != s[k].0,
    ensures
        names_of(s).contains_key(s[k].0),
        names_of(s)[s[k].0] == s[k].1,
    decreases s.len(),
{
    if k < s.len() - 1 {
        let last = s.len() - 1;
        assert(s[last].0 != s[k].0);
        assert(s.drop_last()[k] == s[k]);
        assert forall|j: int| k < j < s.drop_last().len() implies (#[trigger] s.drop_last()[j]).0 != s.drop_last()[k].0 by {
            assert(s.drop_last()[j] == s[j]);
        }
        lemma_written_name_is_read(s.drop_last(), k);
    }
}

} // verus!
