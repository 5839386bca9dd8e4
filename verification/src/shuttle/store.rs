//! What a store of the node offers.
use vstd::prelude::*;
use crate::error::Error;

verus! {

/// A store of values by their keys.
pub trait Store: Sized {
    type Type;

    type Channel;

    fn store_type(&self) -> Self::Type;

    fn insert(&mut self, key: &[u8], value: &[u8]) -> Result<(), Error>;

    fn find(&self, key: &[u8]) -> Result<Vec<u8>, Error>;

    fn replace(&mut self, key: &[u8], value: &[u8]) -> Result<(), Error>;

    fn remove(&mut self, key: &[u8]) -> Result<(), Error>;

    fn watch(&self) -> Self::Channel;
}

} // verus!
