//! Whether a device's profile parameters have been received yet. Profile
//! and EnumProfile are emitted on every route change, so they are only
//! asked for once.

use vstd::prelude::*;
use std::collections::HashMap;

use crate::object::ObjectId;

verus! {

broadcast use vstd::std_specs::hash::group_hash_axioms;

/// The kinds of device parameter that are tracked; the rest are `Other`.
#[derive(Debug, Clone, Copy, PartialEq, Eq, Structural)]
pub enum ParamKind {
    Profile,
    EnumProfile,
    Other,
}

#[derive(Debug, Clone, Copy, PartialEq, Eq, Structural)]
pub struct DeviceStatus {
    pub profile: bool,
    pub enum_profile: bool,
}

/// The status of a device with `flag` marked as received.
pub open spec fn marked(status: DeviceStatus, flag: ParamKind) -> DeviceStatus {
    match flag {
        ParamKind::Profile => DeviceStatus { profile: true, ..status },
        ParamKind::EnumProfile => DeviceStatus { enum_profile: true, ..status },
        ParamKind::Other => status,
    }
}

/// Whether `flag` has been received.
pub open spec fn received(status: DeviceStatus, flag: ParamKind) -> bool {
    match flag {
        ParamKind::Profile => status.profile,
        ParamKind::EnumProfile => status.enum_profile,
        ParamKind::Other => false,
    }
}

pub open spec fn no_status() -> DeviceStatus {
    DeviceStatus { profile: false, enum_profile: false }
}

impl Default for DeviceStatus {
    fn default() -> (status: DeviceStatus)
        ensures
            status == no_status(),
    {
        DeviceStatus { profile: false, enum_profile: false }
    }
}

impl DeviceStatus {
    /// Marks `flag` as received.
    pub fn set(&mut self, flag: ParamKind)
        ensures
            *final(self) == marked(*old(self), flag),
    {
        match flag {
            ParamKind::Profile => self.profile = true,
            ParamKind::EnumProfile => self.enum_profile = true,
            ParamKind::Other => {},
        }
    }

    /// Whether `flag` has been received.
    pub fn get(&self, flag: ParamKind) -> (r: bool)
        ensures
            r == received(*self, flag),
    {
        match flag {
            ParamKind::Profile => self.profile,
            ParamKind::EnumProfile => self.enum_profile,
            ParamKind::Other => false,
        }
    }
}

/// The status of each device, by id.
pub struct DeviceStatusTracker {
    statuses: HashMap<u32, DeviceStatus>,
}

impl View for DeviceStatusTracker {
    type V = Map<u32, DeviceStatus>;

    closed spec fn view(&self) -> Map<u32, DeviceStatus> {
        self.statuses@
    }
}

impl DeviceStatusTracker {
    pub fn new() -> (tracker: DeviceStatusTracker)
        ensures
            tracker@ == Map::<u32, DeviceStatus>::empty(),
    {
        DeviceStatusTracker { statuses: HashMap::new() }
    }

    /// Marks `flag` as received for device `id`.
    pub fn set(&mut self, id: ObjectId, flag: ParamKind)
        ensures
            final(self)@ == old(self)@.insert(
                id.0,
                marked(
                    if old(self)@.contains_key(id.0) {
                        old(self)@[id.0]
                    } else {
                        no_status()
                    },
                    flag,
                ),
            ),
    {
        let mut status = match self.statuses.get(&id.0) {
            Some(s) => *s,
            None => DeviceStatus::default(),
        };
        status.set(flag);
        self.statuses.insert(id.0, status);
    }

    /// The status of device `id`, if anything has been received for it.
    pub fn get(&self, id: ObjectId) -> (status: Option<&DeviceStatus>)
        ensures
            match status {
                Some(s) => self@.contains_key(id.0) && *s == self@[id.0],
                None => !self@.contains_key(id.0),
            },
    {
        self.statuses.get(&id.0)
    }

    /// Forgets device `id`, returning its status.
    pub fn remove(&mut self, id: &ObjectId) -> (status: Option<DeviceStatus>)
        ensures
            final(self)@ == old(self)@.remove(id.0),
            match status {
                Some(s) => old(self)@.contains_key(id.0) && s == old(self)@[id.0],
                None => !old(self)@.contains_key(id.0),
            },
    {
        self.statuses.remove(&id.0)
    }
}

/// A flag marked for a device is received, whatever was received before.
pub proof fn lemma_set_then_get(before: Map<u32, DeviceStatus>, id: u32, flag: ParamKind)
    requires
        flag != ParamKind::Other,
    ensures
        ({
            let after = before.insert(
                id,
                marked(if before.contains_key(id) { before[id] } else { no_status() }, flag),
            );
            after.contains_key(id) && received(after[id], flag)
        }),
{
}

} // verus!
