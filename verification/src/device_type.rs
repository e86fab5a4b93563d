//! Whether a device is a sink or a source, as the node list names it.

use vstd::prelude::*;

verus! {

#[derive(Debug, Clone, Copy, PartialEq, Eq, Structural)]
pub enum DeviceType {
    Sink,
    Source,
}

} // verus!
