//! The flat device description produced by the libusb-style scan.
use crate::model::{DriverStatus, LinkHealth, spec_has_tag, tags_add, tags_added, tags_have};
use crate::text::{concat, fmt_decimal3, fmt_hex4_lower, padded};
use vstd::prelude::*;

verus! {

/// A USB device with all information available.
#[derive(Debug, Clone)]
pub struct UsbDeviceInfo {
    pub vendor_id: u16,
    pub product_id: u16,
    pub manufacturer: Option<String>,
    pub product: Option<String>,
    pub serial_number: Option<String>,
    pub bus_number: u8,
    pub device_address: u8,
    pub class: u8,
    pub subclass: u8,
    pub protocol: u8,
    /// USB specification version, binary-coded decimal.
    pub usb_version: u16,
    /// Device release, binary-coded decimal.
    pub device_version: u16,
    pub num_configurations: u8,
    pub platform_hint: PlatformHint,
    pub bus_type: UsbBusType,
    pub usb_ids: Option<UsbIds>,
    pub driver_status: DriverStatus,
    pub link_health: LinkHealth,
    pub tags: Vec<String>,
    pub port_path: Option<String>,
}

/// Operating-system specific details, filled in by platform enrichment.
#[derive(Debug, Clone)]
pub struct PlatformHint {
    /// Windows device path, or a generic one elsewhere.
    pub device_path: Option<String>,
    /// Windows device instance path.
    pub instance_path: Option<String>,
    /// Driver name (Windows, macOS).
    pub driver_name: Option<String>,
    /// Windows hardware IDs.
    pub hardware_ids: Vec<String>,
    /// Linux sysfs path.
    pub sysfs_path: Option<String>,
    /// Linux driver name.
    pub driver: Option<String>,
    /// Linux authorization status.
    pub authorized: Option<bool>,
    /// Linux device node.
    pub devnode: Option<String>,
    /// macOS IORegistry path.
    pub ioregistry_path: Option<String>,
    /// macOS location ID.
    pub location_id: Option<u32>,
}

impl PlatformHint {
    pub open spec fn is_empty(&self) -> bool {
        &&& self.device_path is None
        &&& self.instance_path is None
        &&& self.driver_name is None
        &&& self.hardware_ids@.len() == 0
        &&& self.sysfs_path is None
        &&& self.driver is None
        &&& self.authorized is None
        &&& self.devnode is None
        &&& self.ioregistry_path is None
        &&& self.location_id is None
    }
}

impl Default for PlatformHint {
    fn default() -> (r: Self)
        ensures
            r.is_empty(),
    {
        PlatformHint {
            device_path: None,
            instance_path: None,
            driver_name: None,
            hardware_ids: Vec::new(),
            sysfs_path: None,
            driver: None,
            authorized: None,
            devnode: None,
            ioregistry_path: None,
            location_id: None,
        }
    }
}

/// How the device is attached.
#[derive(Debug, Clone, Copy, PartialEq, Eq, Structural)]
pub enum UsbBusType {
    Standard,
    Virtual,
    Unknown,
}

/// Names from the USB ID database.
#[derive(Debug, Clone)]
pub struct UsbIds {
    pub vendor_name: Option<String>,
    pub product_name: Option<String>,
    pub class_name: Option<String>,
}

/// `"<s> "` when the string is there, else nothing.
pub open spec fn part_with_space(s: Option<String>) -> Seq<char> {
    match s {
        Some(t) => t@ + " "@,
        None => Seq::empty(),
    }
}

/// The one-line description of a device: IDs in hex, the strings that are
/// there, then bus and address as three digits.
pub open spec fn spec_display(d: UsbDeviceInfo) -> Seq<char> {
    "USB Device ["@ + padded(d.vendor_id as nat, 16, 4, false) + ":"@ + padded(d.product_id as nat, 16, 4, false)
        + "] "@ + part_with_space(d.manufacturer) + part_with_space(d.product) + match d.serial_number {
        Some(s) => "(S/N: "@ + s@ + ") "@,
        None => Seq::empty(),
    } + "Bus "@ + padded(d.bus_number as nat, 10, 3, false) + " Device "@ + padded(
        d.device_address as nat,
        10,
        3,
        false,
    )
}

impl UsbDeviceInfo {
    /// A device with the given IDs and every other field empty, zero or
    /// unknown; link health good.
    pub fn new(vendor_id: u16, product_id: u16) -> (r: Self)
        ensures
            r.vendor_id == vendor_id,
            r.product_id == product_id,
            r.manufacturer is None,
            r.product is None,
            r.serial_number is None,
            r.bus_number == 0,
            r.device_address == 0,
            r.class == 0,
            r.subclass == 0,
            r.protocol == 0,
            r.usb_version == 0,
            r.device_version == 0,
            r.num_configurations == 0,
            r.platform_hint.is_empty(),
            r.bus_type == UsbBusType::Unknown,
            r.usb_ids is None,
            r.driver_status is Unknown,
            r.link_health is Good,
            r.tags@.len() == 0,
            r.port_path is None,
    {
        UsbDeviceInfo {
            vendor_id,
            product_id,
            manufacturer: None,
            product: None,
            serial_number: None,
            bus_number: 0,
            device_address: 0,
            class: 0,
            subclass: 0,
            protocol: 0,
            usb_version: 0,
            device_version: 0,
            num_configurations: 0,
            platform_hint: PlatformHint::default(),
            bus_type: UsbBusType::Unknown,
            usb_ids: None,
            driver_status: DriverStatus::Unknown,
            link_health: LinkHealth::Good,
            tags: Vec::new(),
            port_path: None,
        }
    }

    /// Adds `tag` unless it is there already, ignoring ASCII case.
    pub fn add_tag(&mut self, tag: &str)
        ensures
            tags_added(old(self).tags@, final(self).tags@, tag@),
            final(self).vendor_id == old(self).vendor_id,
            final(self).product_id == old(self).product_id,
    {
        tags_add(&mut self.tags, tag);
    }

    /// Whether the device carries `tag`, ignoring ASCII case.
    pub fn has_tag(&self, tag: &str) -> (r: bool)
        ensures
            r == spec_has_tag(self.tags@, tag@),
    {
        tags_have(&self.tags, tag)
    }

    /// The one-line description of the device.
    pub fn display_string(&self) -> (r: String)
        ensures
            r@ == spec_display(*self),
    {
        let vid = fmt_hex4_lower(self.vendor_id);
        let pid = fmt_hex4_lower(self.product_id);
        let mut out = concat("USB Device [", vid.as_str());
        out = concat(out.as_str(), ":");
        out = concat(out.as_str(), pid.as_str());
        out = concat(out.as_str(), "] ");
        if let Some(m) = &self.manufacturer {
            out = concat(out.as_str(), m.as_str());
            out = concat(out.as_str(), " ");
        }
        if let Some(p) = &self.product {
            out = concat(out.as_str(), p.as_str());
            out = concat(out.as_str(), " ");
        }
        if let Some(s) = &self.serial_number {
            out = concat(out.as_str(), "(S/N: ");
            out = concat(out.as_str(), s.as_str());
            out = concat(out.as_str(), ") ");
        }
        let bus = fmt_decimal3(self.bus_number);
        let addr = fmt_decimal3(self.device_address);
        out = concat(out.as_str(), "Bus ");
        out = concat(out.as_str(), bus.as_str());
        out = concat(out.as_str(), " Device ");
        out = concat(out.as_str(), addr.as_str());
        proof {
            let d = *self;
            assert(out@ =~= spec_display(d));
        }
        out
    }
}

} // verus!
