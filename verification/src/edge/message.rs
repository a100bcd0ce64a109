//! What the edge producer needs of a message besides its position.

use vstd::prelude::*;

verus! {

/// A message that can carry the name of its neighborhood.
pub trait WithNeighborhood {
    /// Records the name of the message's neighborhood.
    fn set_neighborhood(&mut self, neighborhood: String);

    /// The name of the message's neighborhood, if it has one.
    fn neighborhood(&self) -> Option<String>;
}

} // verus!
