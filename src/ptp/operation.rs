use vstd::prelude::*;

verus! {

/// Get device info
pub const GET_DEVICE_INFO: u16 = 0x1001;
/// Open session
pub const OPEN_SESSION: u16 = 0x1002;
/// Close session
pub const CLOSE_SESSION: u16 = 0x1003;
/// Get storage IDs
pub const GET_STORAGE_IDS: u16 = 0x1004;
/// Get storage info
pub const GET_STORAGE_INFO: u16 = 0x1005;
/// Get number of objects
pub const GET_NUM_OBJECTS: u16 = 0x1006;
/// Get object handles
pub const GET_OBJECT_HANDLES: u16 = 0x1007;
/// Get object info
pub const GET_OBJECT_INFO: u16 = 0x1008;
/// Get object
pub const GET_OBJECT: u16 = 0x1009;
/// Get thumbnail
pub const GET_THUMB: u16 = 0x100A;
/// Delete object
pub const DELETE_OBJECT: u16 = 0x100B;
/// Initiate capture
pub const INITIATE_CAPTURE: u16 = 0x100E;
/// Initiate open capture
pub const INITIATE_OPEN_CAPTURE: u16 = 0x101C;
/// Terminate open capture
pub const TERMINATE_OPEN_CAPTURE: u16 = 0x1018;

} // verus!
