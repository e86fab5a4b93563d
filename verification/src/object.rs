//! Identifiers of PipeWire objects.

use vstd::prelude::*;

verus! {

/// The id that PipeWire gives a global object.
#[derive(Debug, Clone, Copy, PartialEq, Eq, Structural, Hash, PartialOrd, Ord)]
pub struct ObjectId(pub u32);

impl ObjectId {
    pub fn from_raw_id(id: u32) -> (object_id: Self)
        ensures
            object_id.0 == id,
    {
        ObjectId(id)
    }

    /// The raw id, as PipeWire numbers objects and metadata subjects.
    pub fn as_raw(&self) -> (id: u32)
        ensures
            id == self.0,
    {
        self.0
    }
}

} // verus!
