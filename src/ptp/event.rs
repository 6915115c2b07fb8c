use vstd::prelude::*;

verus! {

/// Cancel transaction
pub const CANCEL_TRANSACTION: u16 = 0x4001;
/// Object added
pub const OBJECT_ADDED: u16 = 0x4002;
/// Object removed
pub const OBJECT_REMOVED: u16 = 0x4003;
/// Store added
pub const STORE_ADDED: u16 = 0x4004;
/// Store removed
pub const STORE_REMOVED: u16 = 0x4005;
/// Device property changed
pub const DEVICE_PROP_CHANGED: u16 = 0x4006;
/// Object info changed
pub const OBJECT_INFO_CHANGED: u16 = 0x4007;
/// Device info changed
pub const DEVICE_INFO_CHANGED: u16 = 0x4008;
/// Request object transfer
pub const REQUEST_OBJECT_TRANSFER: u16 = 0x4009;
/// Store full
pub const STORE_FULL: u16 = 0x400A;
/// Storage info changed
pub const STORAGE_INFO_CHANGED: u16 = 0x400C;
/// Capture complete
pub const CAPTURE_COMPLETE: u16 = 0x400D;

} // verus!
