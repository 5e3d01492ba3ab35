//! Verified logic behind a few views of an ordinals inscription server:
//! audio tag metadata, inscription listing filters and pagination, and
//! content-security-policy headers.
use vstd::prelude::*;

pub mod text;
pub mod ogg;
pub mod opus;
pub mod metadata;
pub mod inscriptions;
pub mod server;
pub mod laws;
pub mod key_laws;
pub mod query_laws;
pub mod policy_laws;

verus! {
} // verus!
