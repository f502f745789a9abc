//! Error reporting of the location-management collaborator.

use vstd::prelude::*;

verus! {

/// A reported location-management failure, as the message shown to the
/// caller.
#[derive(Debug)]
pub struct LocationsError(pub String);

} // verus!
