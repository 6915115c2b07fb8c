//! The bmRequestType byte of a control request: direction, type and
//! recipient.
use vstd::prelude::*;

verus! {

/// Direction: device to host.
pub const DIR_IN: u8 = 0x80;
/// Direction: host to device.
pub const DIR_OUT: u8 = 0x00;
/// Type: standard.
pub const TYPE_STANDARD: u8 = 0x00;
/// Type: class.
pub const TYPE_CLASS: u8 = 0x20;
/// Type: vendor.
pub const TYPE_VENDOR: u8 = 0x40;
/// Recipient: device.
pub const RECIP_DEVICE: u8 = 0x00;
/// Recipient: interface.
pub const RECIP_INTERFACE: u8 = 0x01;
/// Recipient: endpoint.
pub const RECIP_ENDPOINT: u8 = 0x02;
/// Recipient: other.
pub const RECIP_OTHER: u8 = 0x03;

/// The request-type byte with the three fields combined.
pub fn build(direction: u8, req_type: u8, recipient: u8) -> (r: u8)
    ensures
        r == direction | req_type | recipient,
{
    direction | req_type | recipient
}

} // verus!
