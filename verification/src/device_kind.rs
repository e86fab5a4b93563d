//! Whether a device is a sink or a source.

use vstd::prelude::*;

verus! {

#[derive(Debug, Clone, Copy, PartialEq, Eq, Structural)]
pub enum DeviceKind {
    Sink,
    Source,
}

} // verus!
