//! USB device discovery, protocol classification, transfer helpers and a
//! DFU (Device Firmware Upgrade) client, with their behaviour stated as
//! contracts and proved.
//!
//! The transport is abstracted by [`DeviceHandle`]; discovery turns what the
//! transport read into [`UsbDeviceRecord`]s, which [`classify_device_protocols`]
//! tags with the protocols a device appears to speak.

pub mod api;
pub mod bulk;
pub mod chunks;
pub mod control;
pub mod dfu;
pub mod errors;
pub mod handle;
pub mod handshake;
pub mod interrupt;
pub mod model;
pub mod ports;
pub mod protocol;
pub mod ptp;
pub mod request_type;
pub mod scan;
pub mod text;
pub mod types;
pub mod watcher;

pub use api::UsbEnumerator;
pub use errors::UsbError;
pub use handle::{CallHistory, DeviceHandle, TransferResult, UsbCall};
pub use handshake::{classify_device_protocols, DeviceProtocol};
pub use protocol::UsbProtocol;
pub use model::{DriverStatus, LinkHealth, UsbDescriptorSummary, UsbDeviceRecord, UsbId, UsbLocation};
pub use types::{PlatformHint, UsbBusType, UsbDeviceInfo, UsbIds};
pub use watcher::DeviceEvent;
