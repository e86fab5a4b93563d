//! The controls that the mixer asks PipeWire to carry out. Volumes are the
//! bit patterns of `f32` values.

use vstd::prelude::*;

use crate::object::ObjectId;

verus! {

#[derive(Debug)]
pub enum Command {
    NodeMute(ObjectId, bool),
    DeviceMute(ObjectId, i32, i32, bool),
    NodeVolumes(ObjectId, Vec<u32>),
    DeviceVolumes(ObjectId, i32, i32, Vec<u32>),
    DeviceSetRoute(ObjectId, i32, i32),
    DeviceSetProfile(ObjectId, i32),
    NodeCaptureStart(ObjectId, u64, bool),
    NodeCaptureStop(ObjectId),
    MetadataSetProperty(ObjectId, u32, String, Option<String>, Option<String>),
}

} // verus!
