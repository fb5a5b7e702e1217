//! Registry for short media links: allocates fixed-width random identifiers,
//! persists a (preview, video) pair of URL suffixes per identifier in a
//! durable ordered key-value store, encodes identifiers as URL-safe tokens,
//! and composes the response page as a zero-copy byte stream.

use vstd::prelude::*;

pub mod codec;
pub mod page;
pub mod registry;
pub mod store;
pub mod text;

verus! {

/// A fixed-width identifier naming one registered link pair.
pub type Id = [u8; 6];

} // verus!
