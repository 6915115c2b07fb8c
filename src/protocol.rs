//! What every protocol client reports about itself.
use vstd::prelude::*;

verus! {

/// Common queries of a protocol client.
pub trait UsbProtocol {
    /// The protocol's short name.
    fn name(&self) -> &'static str;

    /// Whether the client currently talks to a device in the protocol.
    fn is_connected(&self) -> bool;

    /// The protocol version that the client implements.
    fn version(&self) -> Option<String>;
}

} // verus!
