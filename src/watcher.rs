//! Hotplug notifications.
use crate::model::UsbDeviceRecord;
use vstd::prelude::*;

verus! {

/// A change on the bus, with the device's record at the time.
#[derive(Debug, Clone)]
pub enum DeviceEvent {
    Added(UsbDeviceRecord),
    Removed(UsbDeviceRecord),
    Changed(UsbDeviceRecord),
}

impl DeviceEvent {
    /// The record that the event carries.
    pub fn record(&self) -> (r: &UsbDeviceRecord)
        ensures
            match *self {
                DeviceEvent::Added(d) => *r == d,
                DeviceEvent::Removed(d) => *r == d,
                DeviceEvent::Changed(d) => *r == d,
            },
    {
        match self {
            DeviceEvent::Added(d) => d,
            DeviceEvent::Removed(d) => d,
            DeviceEvent::Changed(d) => d,
        }
    }
}

} // verus!
