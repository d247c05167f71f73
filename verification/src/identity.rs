//! Handle for reading the identity registry of the hosting chain. The
//! registry itself is an external collaborator; this crate only carries the
//! client a resolver queries it through.

use vstd::prelude::*;

verus! {

/// Wraps the client used to query the identity registry.
pub struct Did<C> {
    /// The connection the queries go through.
    pub client: C,
}

impl<C> Did<C> {
    /// A new handle over the given client.
    pub fn new(client: C) -> (r: Self)
        ensures
            r.client == client,
    {
        Did { client }
    }
}

} // verus!
