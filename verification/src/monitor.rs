//! Bookkeeping of the PipeWire monitor: which parameters of each device
//! have arrived, and when the initial burst of information is complete.

pub mod device_status;
pub mod sync_registry;
