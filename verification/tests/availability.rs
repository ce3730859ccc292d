use konoasset::availability::CloudAvailabilityStatus::{FullyAvailable, NotDownloaded, PartiallyAvailable};
use konoasset::availability::{
    availability_from_attributes, check_dir_availability, is_placeholder, CloudAvailabilityStatus,
};

const OFFLINE: u32 = 0x1000;
const RECALL_ON_OPEN: u32 = 0x40000;
const RECALL_ON_DATA_ACCESS: u32 = 0x400000;
const NORMAL: u32 = 0x80;

#[test]
fn placeholder_attributes() {
    assert!(is_placeholder(OFFLINE));
    assert!(is_placeholder(RECALL_ON_OPEN | NORMAL));
    assert!(is_placeholder(RECALL_ON_DATA_ACCESS));
    assert!(!is_placeholder(NORMAL));
    assert!(!is_placeholder(0));
}

#[test]
fn availability_classes() {

    assert_eq!(availability_from_attributes(None), FullyAvailable);
    assert_eq!(availability_from_attributes(Some(vec![])), FullyAvailable);
    assert_eq!(availability_from_attributes(Some(vec![Some(OFFLINE), Some(RECALL_ON_OPEN)])), NotDownloaded);
    assert_eq!(availability_from_attributes(Some(vec![Some(OFFLINE), Some(NORMAL)])), PartiallyAvailable);
    assert_eq!(availability_from_attributes(Some(vec![Some(OFFLINE), None])), PartiallyAvailable);
    assert_eq!(availability_from_attributes(Some(vec![Some(NORMAL), None])), FullyAvailable);
}

#[test]
fn only_the_first_fifty_files_count() {

    let mut v = vec![Some(OFFLINE); 50];
    v.push(Some(NORMAL));
    assert_eq!(availability_from_attributes(Some(v)), NotDownloaded);
    let mut w = vec![Some(OFFLINE); 49];
    w.push(Some(NORMAL));
    assert_eq!(availability_from_attributes(Some(w)), PartiallyAvailable);
}

#[test]
fn without_placeholders_everything_is_available() {
    assert_eq!(check_dir_availability("/nowhere"), CloudAvailabilityStatus::FullyAvailable);
}
