//! What is served over HTTP.
use vstd::prelude::*;
use std::sync::Arc;

verus! {

/// The cache that requests are answered from.
pub struct CacheSystem<C>(pub Arc<C>);

impl<C> CacheSystem<C> {
    /// The shared cache.
    pub fn as_ref(&self) -> (r: &Arc<C>)
        ensures
            *r == self.0,
    {
        &self.0
    }
}

/// What the root is answered with.
pub fn index() -> (r: String)
    ensures
        r@ == "Hello, World!"@,
{
    "Hello, World!".to_owned()
}

} // verus!
