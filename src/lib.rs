//! Inventory, scoring and cleanup of disk caches and container-engine resources.
use vstd::prelude::*;

pub mod text;
pub mod sizes;
pub mod docker;
pub mod inventory;
pub mod scoring;
pub mod suggestions;
pub mod cleanup;
pub mod paths;
pub mod caches;
pub mod folders;
pub mod monetization;
pub mod ads;

verus! {

} // verus!
