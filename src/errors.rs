//! Errors: the library's own kinds, with the native USB library's error
//! carried as it is, and the one predicate the retry policy needs.
use crate::text::concat;
use vstd::prelude::*;

verus! {

/// The error type of the native USB library; its variants are read as
/// they are declared there.
#[verifier::external_type_specification]
pub struct ExUsbLibError(rusb::Error);

/// Relies on the derived `Clone` of `rusb::Error`, a field-less `Copy` enum:
/// the clone is the same variant.
pub assume_specification[ <rusb::Error as Clone>::clone ](e: &rusb::Error) -> (r: rusb::Error)
    ensures
        r == *e,
;

/// Errors of this library.
#[derive(Debug, Clone)]
pub enum UsbError {
    /// The transport or operating system could not be accessed.
    Platform(String),
    DeviceNotFound(String),
    PermissionDenied(String),
    /// A failure passed through from the native USB library.
    UsbLib(rusb::Error),
    Io(String),
    /// A descriptor or response payload was malformed.
    Parse(String),
    Unknown(String),
}

/// A transient failure: the same transfer may succeed when tried again.
pub open spec fn spec_is_retryable(e: UsbError) -> bool {
    match e {
        UsbError::UsbLib(k) => k is Timeout || k is Busy || k is Interrupted,
        _ => false,
    }
}

/// Tells whether an error is worth retrying (timeout, busy, interrupted).
pub fn is_retryable(error: &UsbError) -> (r: bool)
    ensures
        r == spec_is_retryable(*error),
{
    match error {
        UsbError::UsbLib(k) => match k {
            rusb::Error::Timeout | rusb::Error::Busy | rusb::Error::Interrupted => true,
            _ => false,
        },
        _ => false,
    }
}

/// The text by which the native USB library describes an error.
pub open spec fn lib_error_text(e: rusb::Error) -> Seq<char> {
    match e {
        rusb::Error::Io => "Input/Output Error"@,
        rusb::Error::InvalidParam => "Invalid parameter"@,
        rusb::Error::Access => "Access denied (insufficient permissions)"@,
        rusb::Error::NoDevice => "No such device (it may have been disconnected)"@,
        rusb::Error::NotFound => "Entity not found"@,
        rusb::Error::Busy => "Resource busy"@,
        rusb::Error::Timeout => "Operation timed out"@,
        rusb::Error::Overflow => "Overflow"@,
        rusb::Error::Pipe => "Pipe error"@,
        rusb::Error::Interrupted => "System call interrupted (perhaps due to signal)"@,
        rusb::Error::NoMem => "Insufficient memory"@,
        rusb::Error::NotSupported => "Operation not supported or unimplemented on this platform"@,
        rusb::Error::BadDescriptor => "Malformed descriptor"@,
        rusb::Error::Other => "Other error"@,
    }
}

/// Relies on the `Display` impl of `rusb::Error`: one fixed text per variant.
#[verifier::external_body]
fn lib_error_string(e: &rusb::Error) -> (r: String)
    ensures
        r@ == lib_error_text(*e),
{
    e.to_string()
}

/// The human-readable message of an error: a prefix naming its kind, then
/// its detail.
pub open spec fn spec_message(e: UsbError) -> Seq<char> {
    match e {
        UsbError::Platform(s) => "Platform error: "@ + s@,
        UsbError::DeviceNotFound(s) => "Device not found: "@ + s@,
        UsbError::PermissionDenied(s) => "Permission denied: "@ + s@,
        UsbError::UsbLib(k) => "USB library error: "@ + lib_error_text(k),
        UsbError::Io(s) => "IO error: "@ + s@,
        UsbError::Parse(s) => "Parse error: "@ + s@,
        UsbError::Unknown(s) => "Unknown error: "@ + s@,
    }
}

impl UsbError {
    /// The error's message.
    pub fn message(&self) -> (r: String)
        ensures
            r@ == spec_message(*self),
    {
        match self {
            UsbError::Platform(s) => concat("Platform error: ", s.as_str()),
            UsbError::DeviceNotFound(s) => concat("Device not found: ", s.as_str()),
            UsbError::PermissionDenied(s) => concat("Permission denied: ", s.as_str()),
            UsbError::UsbLib(k) => {
                let text = lib_error_string(k);
                concat("USB library error: ", text.as_str())
            },
            UsbError::Io(s) => concat("IO error: ", s.as_str()),
            UsbError::Parse(s) => concat("Parse error: ", s.as_str()),
            UsbError::Unknown(s) => concat("Unknown error: ", s.as_str()),
        }
    }
}

} // verus!
