//! The capability that closes the kernel's term families.

use vstd::prelude::*;

verus! {

/// Marker held only by the term families defined in this crate.
///
/// The module is private, so no code outside the crate can name the marker,
/// and none of the public traits that require it can gain a foreign
/// implementor.
pub trait Sealed {

}

} // verus!
