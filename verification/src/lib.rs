//! Verified core of an asset manager whose metadata is shared between
//! several machines through a cloud-synchronised folder.

pub mod asset;
pub mod availability;
pub mod container;
pub mod device_registry;
pub mod file_names;
pub mod ident;
pub mod laws;
pub mod legacy;
pub mod preference;
pub mod text;
pub mod values;
