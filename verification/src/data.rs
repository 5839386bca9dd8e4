//! The objects in which modules hand out what they hold.
use vstd::prelude::*;
use crate::ids::Uuid;

verus! {

/// A data object of a module `M` with a payload `P`.
#[derive(Clone, PartialEq, Eq, Debug)]
pub struct Data<M, P> {
    pub id: Uuid,
    pub version: i32,
    /// The whole seconds of the time at which it was made.
    pub seconds: i64,
    /// The nanoseconds of that time after the whole seconds.
    pub nanos: u32,
    pub size: u64,
    pub module: M,
    pub payload: P,
}

pub type DataObject<M, P> = Data<M, P>;

impl<M, P> Data<M, P> {
    /// An object that was made now.
    pub fn new(module: M, payload: P, id: Uuid, seconds: i64, nanos: u32) -> (r: Data<M, P>)
        ensures
            r == (Data { id, version: 0, seconds, nanos, size: 0, module, payload }),
    {
        Data { id, version: 0, seconds, nanos, size: 0, module, payload }
    }

    /// What the object holds.
    pub fn payload(&self) -> (r: &P)
        ensures
            *r == self.payload,
    {
        &self.payload
    }

    /// The time at which the object was made, in seconds.
    pub fn timestamp(&self) -> (r: i64)
        ensures
            r == self.seconds,
    {
        self.seconds
    }
}

} // verus!
