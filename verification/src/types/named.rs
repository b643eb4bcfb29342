//! Full names of types.

use vstd::prelude::*;

verus! {

/// The full name of an item: the name of the topmost item, and the names of the properties
/// that lead from it to the item. `named.property.property2` is
/// `Named("named", ["property", "property2"])`.
#[derive(Debug)]
pub struct Named(pub String, pub Vec<String>);

} // verus!
