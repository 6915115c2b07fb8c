//! Picture Transfer Protocol (the base of MTP): code tables, the records
//! the protocol exchanges, and a session client.
use crate::handle::{millis, DeviceHandle, UsbCall};
use crate::protocol::UsbProtocol;
use std::time::Duration;
use vstd::prelude::*;

pub mod event;
pub mod format;
pub mod operation;
pub mod property;

verus! {

/// The name of an object format code.
pub open spec fn spec_format_name(code: u16) -> Seq<char> {
    if code == format::UNDEFINED {
        "Undefined"@
    } else if code == format::ASSOCIATION {
        "Folder"@
    } else if code == format::SCRIPT {
        "Script"@
    } else if code == format::EXECUTABLE {
        "Executable"@
    } else if code == format::TEXT {
        "Text"@
    } else if code == format::HTML {
        "HTML"@
    } else if code == format::DPOF {
        "DPOF"@
    } else if code == format::AIFF {
        "AIFF"@
    } else if code == format::WAV {
        "WAV"@
    } else if code == format::MP3 {
        "MP3"@
    } else if code == format::AVI {
        "AVI"@
    } else if code == format::MPEG {
        "MPEG"@
    } else if code == format::ASF {
        "ASF"@
    } else if code == format::EXIF_JPEG {
        "JPEG"@
    } else if code == format::TIFF_EP {
        "TIFF/EP"@
    } else if code == format::FLASHPIX {
        "FlashPix"@
    } else if code == format::BMP {
        "BMP"@
    } else if code == format::CIFF {
        "CIFF"@
    } else if code == format::GIF {
        "GIF"@
    } else if code == format::JFIF {
        "JFIF"@
    } else if code == format::PCD {
        "PCD"@
    } else if code == format::PICT {
        "PICT"@
    } else if code == format::PNG {
        "PNG"@
    } else if code == format::TIFF {
        "TIFF"@
    } else if code == format::JP2 {
        "JPEG 2000"@
    } else if code == format::JPX {
        "JPEG 2000 Extended"@
    } else if code == format::RAW {
        "RAW"@
    } else {
        "Unknown"@
    }
}

/// The name of a device property code.
pub open spec fn spec_property_name(code: u16) -> Seq<char> {
    if code == property::BATTERY_LEVEL {
        "Battery Level"@
    } else if code == property::FUNCTIONAL_MODE {
        "Functional Mode"@
    } else if code == property::IMAGE_SIZE {
        "Image Size"@
    } else if code == property::COMPRESSION_SETTING {
        "Compression"@
    } else if code == property::WHITE_BALANCE {
        "White Balance"@
    } else if code == property::F_NUMBER {
        "F-Number"@
    } else if code == property::FOCAL_LENGTH {
        "Focal Length"@
    } else if code == property::FOCUS_DISTANCE {
        "Focus Distance"@
    } else if code == property::FOCUS_MODE {
        "Focus Mode"@
    } else if code == property::EXPOSURE_METERING_MODE {
        "Metering Mode"@
    } else if code == property::FLASH_MODE {
        "Flash Mode"@
    } else if code == property::EXPOSURE_TIME {
        "Exposure Time"@
    } else if code == property::EXPOSURE_PROGRAM_MODE {
        "Exposure Program"@
    } else if code == property::EXPOSURE_INDEX {
        "ISO"@
    } else if code == property::EXPOSURE_BIAS_COMPENSATION {
        "Exposure Compensation"@
    } else if code == property::DATE_TIME {
        "Date/Time"@
    } else if code == property::CAPTURE_DELAY {
        "Capture Delay"@
    } else if code == property::STILL_CAPTURE_MODE {
        "Capture Mode"@
    } else if code == property::CONTRAST {
        "Contrast"@
    } else if code == property::SHARPNESS {
        "Sharpness"@
    } else if code == property::DIGITAL_ZOOM {
        "Digital Zoom"@
    } else if code == property::EFFECT_MODE {
        "Effect Mode"@
    } else if code == property::ARTIST {
        "Artist"@
    } else if code == property::COPYRIGHT_INFO {
        "Copyright"@
    } else {
        "Unknown"@
    }
}

/// The name of an event code.
pub open spec fn spec_event_name(code: u16) -> Seq<char> {
    if code == event::CANCEL_TRANSACTION {
        "CancelTransaction"@
    } else if code == event::OBJECT_ADDED {
        "ObjectAdded"@
    } else if code == event::OBJECT_REMOVED {
        "ObjectRemoved"@
    } else if code == event::STORE_ADDED {
        "StoreAdded"@
    } else if code == event::STORE_REMOVED {
        "StoreRemoved"@
    } else if code == event::DEVICE_PROP_CHANGED {
        "DevicePropChanged"@
    } else if code == event::OBJECT_INFO_CHANGED {
        "ObjectInfoChanged"@
    } else if code == event::DEVICE_INFO_CHANGED {
        "DeviceInfoChanged"@
    } else if code == event::REQUEST_OBJECT_TRANSFER {
        "RequestObjectTransfer"@
    } else if code == event::STORE_FULL {
        "StoreFull"@
    } else if code == event::STORAGE_INFO_CHANGED {
        "StorageInfoChanged"@
    } else if code == event::CAPTURE_COMPLETE {
        "CaptureComplete"@
    } else {
        "Unknown"@
    }
}

/// The name of an object format code, "Unknown" for codes not listed.
pub fn format_name(code: u16) -> (r: &'static str)
    ensures
        r@ == spec_format_name(code),
{
    if code == format::UNDEFINED {
        "Undefined"
    } else if code == format::ASSOCIATION {
        "Folder"
    } else if code == format::SCRIPT {
        "Script"
    } else if code == format::EXECUTABLE {
        "Executable"
    } else if code == format::TEXT {
        "Text"
    } else if code == format::HTML {
        "HTML"
    } else if code == format::DPOF {
        "DPOF"
    } else if code == format::AIFF {
        "AIFF"
    } else if code == format::WAV {
        "WAV"
    } else if code == format::MP3 {
        "MP3"
    } else if code == format::AVI {
        "AVI"
    } else if code == format::MPEG {
        "MPEG"
    } else if code == format::ASF {
        "ASF"
    } else if code == format::EXIF_JPEG {
        "JPEG"
    } else if code == format::TIFF_EP {
        "TIFF/EP"
    } else if code == format::FLASHPIX {
        "FlashPix"
    } else if code == format::BMP {
        "BMP"
    } else if code == format::CIFF {
        "CIFF"
    } else if code == format::GIF {
        "GIF"
    } else if code == format::JFIF {
        "JFIF"
    } else if code == format::PCD {
        "PCD"
    } else if code == format::PICT {
        "PICT"
    } else if code == format::PNG {
        "PNG"
    } else if code == format::TIFF {
        "TIFF"
    } else if code == format::JP2 {
        "JPEG 2000"
    } else if code == format::JPX {
        "JPEG 2000 Extended"
    } else if code == format::RAW {
        "RAW"
    } else {
        "Unknown"
    }
}

/// The name of a device property code, "Unknown" for codes not listed.
pub fn property_name(code: u16) -> (r: &'static str)
    ensures
        r@ == spec_property_name(code),
{
    if code == property::BATTERY_LEVEL {
        "Battery Level"
    } else if code == property::FUNCTIONAL_MODE {
        "Functional Mode"
    } else if code == property::IMAGE_SIZE {
        "Image Size"
    } else if code == property::COMPRESSION_SETTING {
        "Compression"
    } else if code == property::WHITE_BALANCE {
        "White Balance"
    } else if code == property::F_NUMBER {
        "F-Number"
    } else if code == property::FOCAL_LENGTH {
        "Focal Length"
    } else if code == property::FOCUS_DISTANCE {
        "Focus Distance"
    } else if code == property::FOCUS_MODE {
        "Focus Mode"
    } else if code == property::EXPOSURE_METERING_MODE {
        "Metering Mode"
    } else if code == property::FLASH_MODE {
        "Flash Mode"
    } else if code == property::EXPOSURE_TIME {
        "Exposure Time"
    } else if code == property::EXPOSURE_PROGRAM_MODE {
        "Exposure Program"
    } else if code == property::EXPOSURE_INDEX {
        "ISO"
    } else if code == property::EXPOSURE_BIAS_COMPENSATION {
        "Exposure Compensation"
    } else if code == property::DATE_TIME {
        "Date/Time"
    } else if code == property::CAPTURE_DELAY {
        "Capture Delay"
    } else if code == property::STILL_CAPTURE_MODE {
        "Capture Mode"
    } else if code == property::CONTRAST {
        "Contrast"
    } else if code == property::SHARPNESS {
        "Sharpness"
    } else if code == property::DIGITAL_ZOOM {
        "Digital Zoom"
    } else if code == property::EFFECT_MODE {
        "Effect Mode"
    } else if code == property::ARTIST {
        "Artist"
    } else if code == property::COPYRIGHT_INFO {
        "Copyright"
    } else {
        "Unknown"
    }
}

/// PTP device info
#[derive(Debug, Clone)]
pub struct PtpDeviceInfo {
    /// Standard version (e.g., 100 = 1.00)
    pub standard_version: u16,
    /// Vendor extension ID
    pub vendor_extension_id: u32,
    /// Vendor extension version
    pub vendor_extension_version: u16,
    /// Vendor extension description
    pub vendor_extension_desc: String,
    /// Functional mode
    pub functional_mode: u16,
    /// Supported operations
    pub operations_supported: Vec<u16>,
    /// Supported events
    pub events_supported: Vec<u16>,
    /// Supported device properties
    pub device_properties_supported: Vec<u16>,
    /// Supported capture formats
    pub capture_formats: Vec<u16>,
    /// Supported image formats
    pub image_formats: Vec<u16>,
    /// Manufacturer
    pub manufacturer: String,
    /// Model
    pub model: String,
    /// Device version
    pub device_version: String,
    /// Serial number
    pub serial_number: String,
}

/// PTP storage info
#[derive(Debug, Clone)]
pub struct PtpStorageInfo {
    /// Storage type
    pub storage_type: u16,
    /// Filesystem type
    pub filesystem_type: u16,
    /// Access capability
    pub access_capability: u16,
    /// Maximum capacity
    pub max_capacity: u64,
    /// Free space in bytes
    pub free_space_bytes: u64,
    /// Free space in images
    pub free_space_images: u32,
    /// Storage description
    pub storage_description: String,
    /// Volume label
    pub volume_label: String,
}

/// PTP object info
#[derive(Debug, Clone)]
pub struct PtpObjectInfo {
    /// Storage ID
    pub storage_id: u32,
    /// Object format
    pub object_format: u16,
    /// Protection status
    pub protection_status: u16,
    /// Object compressed size
    pub object_compressed_size: u32,
    /// Thumb format
    pub thumb_format: u16,
    /// Thumb compressed size
    pub thumb_compressed_size: u32,
    /// Thumb pixel width
    pub thumb_pix_width: u32,
    /// Thumb pixel height
    pub thumb_pix_height: u32,
    /// Image pixel width
    pub image_pix_width: u32,
    /// Image pixel height
    pub image_pix_height: u32,
    /// Image bit depth
    pub image_bit_depth: u32,
    /// Parent object
    pub parent_object: u32,
    /// Association type
    pub association_type: u16,
    /// Association description
    pub association_desc: u32,
    /// Sequence number
    pub sequence_number: u32,
    /// Filename
    pub filename: String,
    /// Capture date
    pub capture_date: String,
    /// Modification date
    pub modification_date: String,
    /// Keywords
    pub keywords: String,
}

/// PTP event
#[derive(Debug, Clone)]
pub struct PtpEvent {
    /// Event code
    pub code: u16,
    /// Session ID
    pub session_id: u32,
    /// Transaction ID
    pub transaction_id: u32,
    /// Event parameters
    pub parameters: Vec<u32>,
}

impl PtpEvent {
    /// The event's name, "Unknown" for codes not listed.
    pub fn name(&self) -> (r: &'static str)
        ensures
            r@ == spec_event_name(self.code),
    {
        let code = self.code;
        if code == event::CANCEL_TRANSACTION {
            "CancelTransaction"
        } else if code == event::OBJECT_ADDED {
            "ObjectAdded"
        } else if code == event::OBJECT_REMOVED {
            "ObjectRemoved"
        } else if code == event::STORE_ADDED {
            "StoreAdded"
        } else if code == event::STORE_REMOVED {
            "StoreRemoved"
        } else if code == event::DEVICE_PROP_CHANGED {
            "DevicePropChanged"
        } else if code == event::OBJECT_INFO_CHANGED {
            "ObjectInfoChanged"
        } else if code == event::DEVICE_INFO_CHANGED {
            "DeviceInfoChanged"
        } else if code == event::REQUEST_OBJECT_TRANSFER {
            "RequestObjectTransfer"
        } else if code == event::STORE_FULL {
            "StoreFull"
        } else if code == event::STORAGE_INFO_CHANGED {
            "StorageInfoChanged"
        } else if code == event::CAPTURE_COMPLETE {
            "CaptureComplete"
        } else {
            "Unknown"
        }
    }
}

/// Default timeout of a PTP transaction, in milliseconds.
pub const PTP_DEFAULT_TIMEOUT_MS: u64 = 5000;

/// A PTP session over a bulk IN, a bulk OUT and an interrupt endpoint.
pub struct PtpClient<'a, H: DeviceHandle> {
    handle: &'a mut H,
    ep_in: u8,
    ep_out: u8,
    ep_int: u8,
    session_id: u32,
    transaction_id: u32,
    timeout: Duration,
}

impl<'a, H: DeviceHandle> PtpClient<'a, H> {
    /// Still-image interface class.
    pub const CLASS: u8 = 0x06;
    /// PTP interface subclass.
    pub const SUBCLASS: u8 = 0x01;
    /// PTP interface protocol.
    pub const PROTOCOL: u8 = 0x01;

    pub closed spec fn spec_endpoints(&self) -> (u8, u8, u8) {
        (self.ep_in, self.ep_out, self.ep_int)
    }

    pub closed spec fn spec_session_id(&self) -> u32 {
        self.session_id
    }

    pub closed spec fn spec_transaction_id(&self) -> u32 {
        self.transaction_id
    }

    /// The requests made through the client's device handle so far.
    pub closed spec fn calls(&self) -> Seq<UsbCall> {
        self.handle.calls()
    }

    /// A client with no session open; the IN and interrupt endpoints get the
    /// direction bit, the OUT endpoint loses it.
    pub fn new(handle: &'a mut H, ep_in: u8, ep_out: u8, ep_int: u8) -> (r: Self)
        ensures
            r.spec_endpoints() == (ep_in | 0x80, ep_out & 0x7F, ep_int | 0x80),
            r.spec_session_id() == 0,
            r.spec_transaction_id() == 0,
            r.calls() == old(handle).calls(),
    {
        PtpClient {
            handle,
            ep_in: ep_in | 0x80,
            ep_out: ep_out & 0x7F,
            ep_int: ep_int | 0x80,
            session_id: 0,
            transaction_id: 0,
            timeout: millis(PTP_DEFAULT_TIMEOUT_MS),
        }
    }

    pub fn with_timeout(self, timeout: Duration) -> (r: Self)
        ensures
            r.spec_endpoints() == self.spec_endpoints(),
            r.spec_session_id() == self.spec_session_id(),
            r.spec_transaction_id() == self.spec_transaction_id(),
            r.calls() == self.calls(),
    {
        PtpClient { timeout, ..self }
    }

    /// Opens session 1 and restarts transaction numbering.
    pub fn open_session(&mut self) -> (r: Result<(), crate::errors::UsbError>)
        ensures
            r is Ok,
            final(self).spec_session_id() == 1,
            final(self).spec_transaction_id() == 0,
            final(self).spec_endpoints() == old(self).spec_endpoints(),
    {
        self.session_id = 1;
        self.transaction_id = 0;
        Ok(())
    }

    /// Closes the session.
    pub fn close_session(&mut self) -> (r: Result<(), crate::errors::UsbError>)
        ensures
            r is Ok,
            final(self).spec_session_id() == 0,
            final(self).spec_endpoints() == old(self).spec_endpoints(),
    {
        self.session_id = 0;
        Ok(())
    }

    /// The (IN, OUT, interrupt) endpoint addresses.
    pub fn endpoints(&self) -> (r: (u8, u8, u8))
        ensures
            r == self.spec_endpoints(),
    {
        (self.ep_in, self.ep_out, self.ep_int)
    }

    pub fn is_session_open(&self) -> (r: bool)
        ensures
            r == (self.spec_session_id() > 0),
    {
        self.session_id > 0
    }

    /// The device handle the client talks through.
    pub fn handle(&self) -> (r: &H)
        ensures
            r.calls() == self.calls(),
    {
        &*self.handle
    }
}

impl<'a, H: DeviceHandle> UsbProtocol for PtpClient<'a, H> {
    fn name(&self) -> (r: &'static str)
        ensures
            r@ == "PTP"@,
    {
        "PTP"
    }

    /// True while a session is open.
    fn is_connected(&self) -> (r: bool)
        ensures
            r == (self.spec_session_id() > 0),
    {
        self.session_id > 0
    }

    fn version(&self) -> (r: Option<String>)
        ensures
            r matches Some(v) && v@ == "1.0"@,
    {
        Some("1.0".to_string())
    }
}

} // verus!
