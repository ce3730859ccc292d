//! Whether the files of an asset are present locally or only in the
//! cloud, judged from the file attributes of a sample of its files.
use vstd::prelude::*;

verus! {

/// How much of an asset's folder is present on this machine.
#[derive(Debug, Clone, Copy, PartialEq, Eq, Structural)]
pub enum CloudAvailabilityStatus {
    /// Nothing has been downloaded by the synchronisation client.
    NotDownloaded,
    /// Some files are present locally, others are not.
    PartiallyAvailable,
    /// Everything is present locally (also where nothing is synchronised).
    FullyAvailable,
}

/// The file attribute of data that is not available immediately.
pub const FILE_ATTRIBUTE_OFFLINE: u32 = 0x0000_1000;

/// The file attribute of a file that is fetched when it is opened.
pub const FILE_ATTRIBUTE_RECALL_ON_OPEN: u32 = 0x0004_0000;

/// The file attribute of a file whose data is fetched when it is read.
pub const FILE_ATTRIBUTE_RECALL_ON_DATA_ACCESS: u32 = 0x0040_0000;

/// How many files of a folder are looked at, at most.
pub const SAMPLE_LIMIT: usize = 50;

/// The attributes mark a cloud placeholder.
pub open spec fn placeholder(attrs: u32) -> bool {
    (attrs & FILE_ATTRIBUTE_RECALL_ON_DATA_ACCESS) != 0 || (attrs & FILE_ATTRIBUTE_OFFLINE) != 0
        || (attrs & FILE_ATTRIBUTE_RECALL_ON_OPEN) != 0
}

/// A file, by its attributes if they could be read, is a placeholder.
pub open spec fn sample_is_placeholder(s: Option<u32>) -> bool {
    match s {
        Some(a) => placeholder(a),
        None => false,
    }
}

/// How much is present, judged from the attributes of the files of a
/// folder in the order listed, of which the first `SAMPLE_LIMIT` count.
pub open spec fn availability_of(samples: Seq<Option<u32>>) -> CloudAvailabilityStatus {
    let k = if samples.len() < SAMPLE_LIMIT { samples.len() as int } else { SAMPLE_LIMIT as int };
    let any_placeholder = exists|i: int| 0 <= i < k && sample_is_placeholder(#[trigger] samples[i]);
    let any_available = exists|i: int| 0 <= i < k && !sample_is_placeholder(#[trigger] samples[i]);
    if k == 0 {
        CloudAvailabilityStatus::FullyAvailable
    } else if any_placeholder && any_available {
        CloudAvailabilityStatus::PartiallyAvailable
    } else if any_placeholder {
        CloudAvailabilityStatus::NotDownloaded
    } else {
        CloudAvailabilityStatus::FullyAvailable
    }
}

/// The number of files that count: the first `SAMPLE_LIMIT` at most.
pub open spec fn sampled(samples: Seq<Option<u32>>) -> int {
    if samples.len() < SAMPLE_LIMIT { samples.len() as int } else { SAMPLE_LIMIT as int }
}

/// Some counted file is a placeholder.
pub open spec fn some_placeholder(samples: Seq<Option<u32>>) -> bool {
    exists|i: int| 0 <= i < sampled(samples) && sample_is_placeholder(#[trigger] samples[i])
}

/// Some counted file is present locally.
pub open spec fn some_present(samples: Seq<Option<u32>>) -> bool {
    exists|i: int| 0 <= i < sampled(samples) && !sample_is_placeholder(#[trigger] samples[i])
}

/// `r` is the status that the kinds of counted files call for: partial
/// when both kinds occur, nothing downloaded when only placeholders occur,
/// fully present otherwise (no placeholder, or no file at all).
pub open spec fn status_by_kinds(samples: Seq<Option<u32>>, r: CloudAvailabilityStatus) -> bool {
    &&& (some_placeholder(samples) && some_present(samples)) ==> r
        == CloudAvailabilityStatus::PartiallyAvailable
    &&& (some_placeholder(samples) && !some_present(samples)) ==> r
        == CloudAvailabilityStatus::NotDownloaded
    &&& !some_placeholder(samples) ==> r == CloudAvailabilityStatus::FullyAvailable
}

/// The status follows the kinds of counted files: a folder with a
/// placeholder and a present file among the counted ones is partially
/// available, whichever comes first; only placeholders means nothing is
/// downloaded; no placeholder means fully available.
pub proof fn lemma_status_by_kinds(samples: Seq<Option<u32>>)
    ensures
        status_by_kinds(samples, availability_of(samples)),
{
}

/// Two listings whose counted files hold the same kinds have the same
/// status: the status does not depend on the order of the files.
pub proof fn lemma_status_ignores_order(s: Seq<Option<u32>>, t: Seq<Option<u32>>)
    requires
        some_placeholder(s) == some_placeholder(t),
        some_present(s) == some_present(t),
    ensures
        availability_of(s) == availability_of(t),
{
    if sampled(s) == 0 {
        assert(!some_placeholder(s) && !some_present(s));
    }
    if sampled(t) == 0 {
        assert(!some_placeholder(t) && !some_present(t));
    }
    if sampled(s) > 0 {
        if sample_is_placeholder(s[0]) {
            assert(some_placeholder(s));
        } else {
            assert(some_present(s));
        }
    }
    if sampled(t) > 0 {
        if sample_is_placeholder(t[0]) {
            assert(some_placeholder(t));
        } else {
            assert(some_present(t));
        }
    }
}

/// Reordering the counted files of a listing leaves its status as it is.
pub proof fn lemma_status_permutation(s: Seq<Option<u32>>, t: Seq<Option<u32>>)
    requires
        s.len() == t.len(),
        s.len() <= SAMPLE_LIMIT,
        s.to_multiset() == t.to_multiset(),
    ensures
        availability_of(s) == availability_of(t),
{
    broadcast use vstd::seq_lib::to_multiset_contains;

    assert(some_placeholder(s) ==> some_placeholder(t)) by {
        if some_placeholder(s) {
            let i = choose|i: int| 0 <= i < sampled(s) && sample_is_placeholder(#[trigger] s[i]);
            assert(s.contains(s[i]));
            assert(t.to_multiset().contains(s[i]));
            let j = choose|j: int| 0 <= j < t.len() && t[j] == s[i];
            assert(sample_is_placeholder(t[j]));
        }
    }
    assert(some_placeholder(t) ==> some_placeholder(s)) by {
        if some_placeholder(t) {
            let i = choose|i: int| 0 <= i < sampled(t) && sample_is_placeholder(#[trigger] t[i]);
            assert(t.contains(t[i]));
            assert(s.to_multiset().contains(t[i]));
            let j = choose|j: int| 0 <= j < s.len() && s[j] == t[i];
            assert(sample_is_placeholder(s[j]));
        }
    }
    assert(some_present(s) ==> some_present(t)) by {
        if some_present(s) {
            let i = choose|i: int| 0 <= i < sampled(s) && !sample_is_placeholder(#[trigger] s[i]);
            assert(s.contains(s[i]));
            assert(t.to_multiset().contains(s[i]));
            let j = choose|j: int| 0 <= j < t.len() && t[j] == s[i];
            assert(!sample_is_placeholder(t[j]));
        }
    }
    assert(some_present(t) ==> some_present(s)) by {
        if some_present(t) {
            let i = choose|i: int| 0 <= i < sampled(t) && !sample_is_placeholder(#[trigger] t[i]);
            assert(t.contains(t[i]));
            assert(s.to_multiset().contains(t[i]));
            let j = choose|j: int| 0 <= j < s.len() && s[j] == t[i];
            assert(!sample_is_placeholder(s[j]));
        }
    }
    lemma_status_ignores_order(s, t);
}

/// Whether the attributes mark a cloud placeholder.
pub fn is_placeholder(attrs: u32) -> (r: bool)
    ensures
        r == placeholder(attrs),
{
    (attrs & FILE_ATTRIBUTE_RECALL_ON_DATA_ACCESS) != 0 || (attrs & FILE_ATTRIBUTE_OFFLINE) != 0
        || (attrs & FILE_ATTRIBUTE_RECALL_ON_OPEN) != 0
}

/// How much of a folder is present, from the attributes of its files
/// (`None` for a file whose attributes could not be read); a folder that
/// could not be listed (`listing` is `None`) counts as present.
pub fn availability_from_attributes(listing: Option<Vec<Option<u32>>>) -> (r: CloudAvailabilityStatus)
    ensures
        match listing {
            Some(v) => r == availability_of(v@),
            None => r == CloudAvailabilityStatus::FullyAvailable,
        },
        listing matches Some(v) ==> status_by_kinds(v@, r),
{
    let samples = match listing {
        Some(v) => v,
        None => {
            return CloudAvailabilityStatus::FullyAvailable;
        },
    };
    let mut any_placeholder = false;
    let mut any_available = false;
    let mut checked: usize = 0;
    while checked < samples.len() && checked < SAMPLE_LIMIT
        invariant
            checked <= samples.len(),
            checked <= SAMPLE_LIMIT,
            any_placeholder == exists|i: int|
                0 <= i < checked && sample_is_placeholder(#[trigger] samples@[i]),
            any_available == exists|i: int|
                0 <= i < checked && !sample_is_placeholder(#[trigger] samples@[i]),
        decreases samples.len() - checked,
    {
        let p = match samples[checked] {
            Some(attrs) => is_placeholder(attrs),
            None => false,
        };
        assert(p == sample_is_placeholder(samples@[checked as int]));
        if p {
            any_placeholder = true;
        } else {
            any_available = true;
        }
        checked = checked + 1;
    }
    if checked == 0 {
        CloudAvailabilityStatus::FullyAvailable
    } else if any_placeholder && any_available {
        CloudAvailabilityStatus::PartiallyAvailable
    } else if any_placeholder {
        CloudAvailabilityStatus::NotDownloaded
    } else {
        CloudAvailabilityStatus::FullyAvailable
    }
}

/// How much of the folder `dir` is present on a system without cloud
/// placeholders: all of it.
pub fn check_dir_availability(_dir: &str) -> (r: CloudAvailabilityStatus)
    ensures
        r == CloudAvailabilityStatus::FullyAvailable,
{
    CloudAvailabilityStatus::FullyAvailable
}

} // verus!
