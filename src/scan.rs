//! Turning what the transport scan read from each candidate device into
//! device records. The scan itself (listing devices, reading descriptors,
//! opening handles) belongs to the transport; this is the part that decides.
use crate::model::{DriverStatus, LinkHealth, UsbDescriptorSummary, UsbDeviceRecord, UsbId, UsbLocation};
use crate::text::{concat, decimal, fmt_decimal};
use crate::types::{PlatformHint, UsbBusType, UsbDeviceInfo};
use vstd::prelude::*;

verus! {

/// The fields of a standard device descriptor that a record keeps. Version
/// numbers are split into their decimal digits.
#[derive(Debug, Clone, Copy, PartialEq, Eq, Structural)]
pub struct DescriptorFields {
    pub vendor_id: u16,
    pub product_id: u16,
    pub class_code: u8,
    pub sub_class_code: u8,
    pub protocol_code: u8,
    pub usb_major: u8,
    pub usb_minor: u8,
    pub usb_sub_minor: u8,
    pub device_major: u8,
    pub device_minor: u8,
    pub device_sub_minor: u8,
    pub num_configurations: u8,
}

/// The string descriptors that could be read; each is absent when the
/// device could not be opened, has no such string, or the read failed.
#[derive(Debug, Clone)]
pub struct DeviceStrings {
    pub manufacturer: Option<String>,
    pub product: Option<String>,
    pub serial_number: Option<String>,
}

/// One device the transport listed: where it is, its descriptor if that
/// could be read, and its strings.
#[derive(Debug, Clone)]
pub struct Candidate {
    pub bus: u8,
    pub address: u8,
    pub descriptor: Option<DescriptorFields>,
    pub strings: DeviceStrings,
}

/// The text of an optional string.
pub open spec fn opt_text(o: Option<String>) -> Option<Seq<char>> {
    match o {
        Some(t) => Some(t@),
        None => None,
    }
}

/// A copy of an optional string.
fn copy_text(o: &Option<String>) -> (r: Option<String>)
    ensures
        opt_text(r) == opt_text(*o),
{
    match o {
        Some(t) => Some(t.clone()),
        None => None,
    }
}

/// A copy of the strings read from a device.
fn copy_strings(s: &DeviceStrings) -> (r: DeviceStrings)
    ensures
        opt_text(r.manufacturer) == opt_text(s.manufacturer),
        opt_text(r.product) == opt_text(s.product),
        opt_text(r.serial_number) == opt_text(s.serial_number),
{
    DeviceStrings {
        manufacturer: copy_text(&s.manufacturer),
        product: copy_text(&s.product),
        serial_number: copy_text(&s.serial_number),
    }
}

/// `"major.minor"` of a version.
pub open spec fn version_text(major: u8, minor: u8) -> Seq<char> {
    decimal(major as nat) + "."@ + decimal(minor as nat)
}

/// `rec` is the record of a candidate at `bus`/`address` with descriptor
/// `d` and strings `s`: no port path, driver unknown, link good, no tags.
pub open spec fn record_of(rec: UsbDeviceRecord, bus: u8, address: u8, d: DescriptorFields, s: DeviceStrings) -> bool {
    &&& rec.id == UsbId { vid: d.vendor_id, pid: d.product_id }
    &&& rec.location.bus == Some(bus)
    &&& rec.location.address == Some(address)
    &&& rec.location.port_path is None
    &&& opt_text(rec.descriptor.manufacturer) == opt_text(s.manufacturer)
    &&& opt_text(rec.descriptor.product) == opt_text(s.product)
    &&& opt_text(rec.descriptor.serial_number) == opt_text(s.serial_number)
    &&& rec.descriptor.device_class == Some(d.class_code)
    &&& rec.descriptor.device_subclass == Some(d.sub_class_code)
    &&& rec.descriptor.device_protocol == Some(d.protocol_code)
    &&& rec.descriptor.usb_version matches Some(v) && v@ == version_text(d.usb_major, d.usb_minor)
    &&& rec.driver is Unknown
    &&& rec.health is Good
    &&& rec.tags@.len() == 0
    &&& rec.raw_data is None
}

/// The candidates whose descriptor could be read, in scan order.
pub open spec fn readable(c: Seq<Candidate>) -> Seq<Candidate> {
    c.filter(|x: Candidate| x.descriptor is Some)
}

/// The record of one candidate whose descriptor was read.
pub fn build_record(bus: u8, address: u8, d: &DescriptorFields, strings: DeviceStrings) -> (r: UsbDeviceRecord)
    ensures
        record_of(r, bus, address, *d, strings),
{
    let major = fmt_decimal(d.usb_major as u64);
    let head = concat(major.as_str(), ".");
    let minor = fmt_decimal(d.usb_minor as u64);
    let version = concat(head.as_str(), minor.as_str());
    UsbDeviceRecord {
        id: UsbId::new(d.vendor_id, d.product_id),
        location: UsbLocation { bus: Some(bus), address: Some(address), port_path: None },
        descriptor: UsbDescriptorSummary {
            manufacturer: strings.manufacturer,
            product: strings.product,
            serial_number: strings.serial_number,
            device_class: Some(d.class_code),
            device_subclass: Some(d.sub_class_code),
            device_protocol: Some(d.protocol_code),
            usb_version: Some(version),
        },
        driver: DriverStatus::Unknown,
        health: LinkHealth::Good,
        tags: Vec::new(),
        raw_data: None,
    }
}

/// One record per candidate whose descriptor was read, in scan order; a
/// candidate without one is skipped and never fails the scan.
pub fn collect_records(candidates: Vec<Candidate>) -> (r: Vec<UsbDeviceRecord>)
    ensures
        r@.len() == readable(candidates@).len(),
        forall|k: int| 0 <= k < r@.len() ==> {
            let c = #[trigger] readable(candidates@)[k];
            record_of(r@[k], c.bus, c.address, c.descriptor->0, c.strings)
        },
{
    let mut out: Vec<UsbDeviceRecord> = Vec::new();
    let mut i: usize = 0;
    while i < candidates.len()
        invariant
            i <= candidates@.len(),
            out@.len() == readable(candidates@.subrange(0, i as int)).len(),
            forall|k: int| 0 <= k < out@.len() ==> {
                let c = #[trigger] readable(candidates@.subrange(0, i as int))[k];
                record_of(out@[k], c.bus, c.address, c.descriptor->0, c.strings)
            },
        decreases candidates@.len() - i,
    {
        let ghost pre = candidates@.subrange(0, i as int);
        let ghost next = candidates@.subrange(0, i + 1);
        proof {
            reveal(Seq::filter);
            assert(next.drop_last() =~= pre);
            assert(next.last() == candidates@[i as int]);
        }
        let c = &candidates[i];
        match &c.descriptor {
            Some(d) => {
                let rec = build_record(c.bus, c.address, d, copy_strings(&c.strings));
                out.push(rec);
            },
            None => {},
        }
        i = i + 1;
    }
    assert(candidates@.subrange(0, candidates@.len() as int) =~= candidates@);
    out
}

/// A version as binary-coded decimal: major in the high byte, minor and
/// sub-minor in the two nibbles of the low byte.
pub fn bcd_version(major: u8, minor: u8, sub_minor: u8) -> (r: u16)
    ensures
        r == ((major as u16) << 8u16) | ((minor as u16) << 4u16) | (sub_minor as u16),
{
    ((major as u16) << 8u16) | ((minor as u16) << 4u16) | (sub_minor as u16)
}

/// The flat description of a candidate whose descriptor was read: IDs,
/// class codes, versions in binary-coded decimal, location and strings;
/// attached through a standard bus.
pub fn build_device_info(bus: u8, address: u8, d: &DescriptorFields, strings: DeviceStrings) -> (r: UsbDeviceInfo)
    ensures
        info_of(r, bus, address, *d, strings),
        r.vendor_id == d.vendor_id,
        r.product_id == d.product_id,
        r.class == d.class_code,
        r.subclass == d.sub_class_code,
        r.protocol == d.protocol_code,
        r.usb_version == ((d.usb_major as u16) << 8u16) | ((d.usb_minor as u16) << 4u16) | (d.usb_sub_minor as u16),
        r.device_version == ((d.device_major as u16) << 8u16) | ((d.device_minor as u16) << 4u16) | (
        d.device_sub_minor as u16),
        r.num_configurations == d.num_configurations,
        r.bus_number == bus,
        r.device_address == address,
        r.bus_type == UsbBusType::Standard,
        r.manufacturer == strings.manufacturer,
        r.product == strings.product,
        r.serial_number == strings.serial_number,
        r.platform_hint.is_empty(),
        r.tags@.len() == 0,
        r.driver_status is Unknown,
        r.link_health is Good,
{
    let mut info = UsbDeviceInfo::new(d.vendor_id, d.product_id);
    info.class = d.class_code;
    info.subclass = d.sub_class_code;
    info.protocol = d.protocol_code;
    info.usb_version = bcd_version(d.usb_major, d.usb_minor, d.usb_sub_minor);
    info.device_version = bcd_version(d.device_major, d.device_minor, d.device_sub_minor);
    info.num_configurations = d.num_configurations;
    info.bus_number = bus;
    info.device_address = address;
    info.bus_type = UsbBusType::Standard;
    info.manufacturer = strings.manufacturer;
    info.product = strings.product;
    info.serial_number = strings.serial_number;
    info.platform_hint = PlatformHint::default();
    info
}

/// `r` describes a candidate at `bus`/`address` with descriptor `d` and
/// strings `s`.
pub open spec fn info_of(r: UsbDeviceInfo, bus: u8, address: u8, d: DescriptorFields, s: DeviceStrings) -> bool {
    &&& r.vendor_id == d.vendor_id
    &&& r.product_id == d.product_id
    &&& r.class == d.class_code
    &&& r.subclass == d.sub_class_code
    &&& r.protocol == d.protocol_code
    &&& r.usb_version == ((d.usb_major as u16) << 8u16) | ((d.usb_minor as u16) << 4u16) | (d.usb_sub_minor as u16)
    &&& r.device_version == ((d.device_major as u16) << 8u16) | ((d.device_minor as u16) << 4u16) | (
    d.device_sub_minor as u16)
    &&& r.num_configurations == d.num_configurations
    &&& r.bus_number == bus
    &&& r.device_address == address
    &&& r.bus_type == UsbBusType::Standard
    &&& opt_text(r.manufacturer) == opt_text(s.manufacturer)
    &&& opt_text(r.product) == opt_text(s.product)
    &&& opt_text(r.serial_number) == opt_text(s.serial_number)
    &&& r.platform_hint.is_empty()
    &&& r.tags@.len() == 0
    &&& r.driver_status is Unknown
    &&& r.link_health is Good
}

/// One description per candidate whose descriptor was read, in scan
/// order; a candidate without one is skipped.
pub fn collect_device_infos(candidates: Vec<Candidate>) -> (r: Vec<UsbDeviceInfo>)
    ensures
        r@.len() == readable(candidates@).len(),
        forall|k: int| 0 <= k < r@.len() ==> {
            let c = #[trigger] readable(candidates@)[k];
            info_of(r@[k], c.bus, c.address, c.descriptor->0, c.strings)
        },
{
    let mut out: Vec<UsbDeviceInfo> = Vec::new();
    let mut i: usize = 0;
    while i < candidates.len()
        invariant
            i <= candidates@.len(),
            out@.len() == readable(candidates@.subrange(0, i as int)).len(),
            forall|k: int| 0 <= k < out@.len() ==> {
                let c = #[trigger] readable(candidates@.subrange(0, i as int))[k];
                info_of(out@[k], c.bus, c.address, c.descriptor->0, c.strings)
            },
        decreases candidates@.len() - i,
    {
        let ghost pre = candidates@.subrange(0, i as int);
        let ghost next = candidates@.subrange(0, i + 1);
        proof {
            reveal(Seq::filter);
            assert(next.drop_last() =~= pre);
            assert(next.last() == candidates@[i as int]);
        }
        let c = &candidates[i];
        match &c.descriptor {
            Some(d) => {
                let info = build_device_info(c.bus, c.address, d, copy_strings(&c.strings));
                out.push(info);
            },
            None => {},
        }
        i = i + 1;
    }
    assert(candidates@.subrange(0, candidates@.len() as int) =~= candidates@);
    out
}

} // verus!
