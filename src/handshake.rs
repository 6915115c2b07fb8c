//! Heuristic protocol classification of a device record: known VID/PID
//! tables, class codes, keywords of the string descriptors and explicit
//! tags. Each rule is independent; the result lists every protocol matched.
use crate::model::{spec_has_tag, UsbDeviceRecord};
use crate::text::{contains_sub, lower_of, lowercase, str_contains};
use vstd::prelude::*;

verus! {

#[derive(Debug, Clone, Copy, PartialEq, Eq, Structural)]
pub enum DeviceProtocol {
    Adb,
    Fastboot,
    AppleDevice,
    Mtp,
    Unknown,
}

/// The optional string holds `kw` after lowercasing.
pub open spec fn mentions(s: Option<String>, kw: Seq<char>) -> bool {
    s matches Some(t) && contains_sub(lower_of(t@), kw)
}

/// Google ADB interfaces and Samsung ADB product IDs.
pub open spec fn adb_id(vid: u16, pid: u16) -> bool {
    (vid == 0x18d1 && 0x4ee1 <= pid <= 0x4ee7) || (vid == 0x04e8 && (pid == 0x6860 || pid == 0x6864))
}

/// Google fastboot product IDs and the Qualcomm EDL pair.
pub open spec fn fastboot_id(vid: u16, pid: u16) -> bool {
    (vid == 0x18d1 && (pid == 0x4ee0 || pid == 0xd00d || pid == 0x0d02)) || (vid == 0x05c6 && pid == 0x9008)
}

/// Product IDs of iPhones, iPads and iPods.
pub open spec fn apple_pid(pid: u16) -> bool {
    pid == 0x1290 || pid == 0x1291 || pid == 0x1292 || pid == 0x1293 || pid == 0x12a0 || pid == 0x12a1
        || pid == 0x12a2 || pid == 0x12a3 || pid == 0x1294 || pid == 0x1297 || pid == 0x129a
        || pid == 0x129c || pid == 0x12ab || pid == 0x12ac
}

pub open spec fn spec_is_adb(d: UsbDeviceRecord) -> bool {
    ||| adb_id(d.id.vid, d.id.pid)
    ||| (d.descriptor.device_class == Some(0xFFu8) && mentions(d.descriptor.product, "adb"@))
    ||| spec_has_tag(d.tags@, "adb"@)
}

pub open spec fn spec_is_fastboot(d: UsbDeviceRecord) -> bool {
    ||| fastboot_id(d.id.vid, d.id.pid)
    ||| mentions(d.descriptor.product, "fastboot"@)
    ||| mentions(d.descriptor.product, "bootloader"@)
    ||| spec_has_tag(d.tags@, "fastboot"@)
}

pub open spec fn spec_is_apple(d: UsbDeviceRecord) -> bool {
    ||| (d.id.vid == 0x05ac && apple_pid(d.id.pid))
    ||| mentions(d.descriptor.manufacturer, "apple"@)
    ||| mentions(d.descriptor.product, "iphone"@)
    ||| mentions(d.descriptor.product, "ipad"@)
    ||| mentions(d.descriptor.product, "ipod"@)
    ||| spec_has_tag(d.tags@, "apple"@)
}

pub open spec fn spec_is_mtp(d: UsbDeviceRecord) -> bool {
    ||| (d.descriptor.device_class == Some(0x06u8) && d.descriptor.device_subclass == Some(0x01u8)
        && d.descriptor.device_protocol == Some(0x01u8))
    ||| mentions(d.descriptor.product, "mtp"@)
    ||| mentions(d.descriptor.product, "media transfer"@)
    ||| (mentions(d.descriptor.manufacturer, "android"@) && (d.descriptor.device_class == Some(0x00u8)
        || d.descriptor.device_class == Some(0xFFu8)))
    ||| spec_has_tag(d.tags@, "mtp"@)
}

/// Whether the rule of protocol `p` matches `d`.
pub open spec fn spec_matches(d: UsbDeviceRecord, p: DeviceProtocol) -> bool {
    match p {
        DeviceProtocol::Adb => spec_is_adb(d),
        DeviceProtocol::Fastboot => spec_is_fastboot(d),
        DeviceProtocol::AppleDevice => spec_is_apple(d),
        DeviceProtocol::Mtp => spec_is_mtp(d),
        DeviceProtocol::Unknown => false,
    }
}

pub open spec fn opt_seq(b: bool, p: DeviceProtocol) -> Seq<DeviceProtocol> {
    if b { seq![p] } else { seq![] }
}

/// The protocols matched, in the order ADB, Fastboot, Apple, MTP; just
/// `Unknown` when none is.
pub open spec fn spec_classify(d: UsbDeviceRecord) -> Seq<DeviceProtocol> {
    let found = found_protocols(d);
    if found.len() == 0 { seq![DeviceProtocol::Unknown] } else { found }
}

/// The protocols whose rule matches, in the order ADB, Fastboot, Apple, MTP.
pub open spec fn found_protocols(d: UsbDeviceRecord) -> Seq<DeviceProtocol> {
    opt_seq(spec_is_adb(d), DeviceProtocol::Adb) + opt_seq(spec_is_fastboot(d), DeviceProtocol::Fastboot)
        + opt_seq(spec_is_apple(d), DeviceProtocol::AppleDevice) + opt_seq(spec_is_mtp(d), DeviceProtocol::Mtp)
}

/// The tag that asserts protocol `p`.
pub open spec fn protocol_tag(p: DeviceProtocol) -> Seq<char> {
    match p {
        DeviceProtocol::Adb => "adb"@,
        DeviceProtocol::Fastboot => "fastboot"@,
        DeviceProtocol::AppleDevice => "apple"@,
        DeviceProtocol::Mtp => "mtp"@,
        DeviceProtocol::Unknown => seq![],
    }
}

/// Whether the optional string holds `kw` after lowercasing.
fn text_mentions(s: &Option<String>, kw: &str) -> (r: bool)
    ensures
        r == mentions(*s, kw@),
{
    match s {
        Some(t) => {
            let lower = lowercase(t.as_str());
            str_contains(lower.as_str(), kw)
        },
        None => false,
    }
}

/// ADB: a known Google or Samsung ADB ID, a vendor-specific class with
/// "adb" in the product string, or the tag "adb".
pub fn is_adb_device(device: &UsbDeviceRecord) -> (r: bool)
    ensures
        r == spec_is_adb(*device),
{
    let vid = device.id.vid;
    let pid = device.id.pid;
    if vid == 0x18d1 && 0x4ee1 <= pid && pid <= 0x4ee7 {
        return true;
    }
    if vid == 0x04e8 && (pid == 0x6860 || pid == 0x6864) {
        return true;
    }
    if let Some(class) = device.descriptor.device_class {
        if class == 0xFF && text_mentions(&device.descriptor.product, "adb") {
            return true;
        }
    }
    device.has_tag("adb")
}

/// Fastboot: a known bootloader-mode ID, "fastboot" or "bootloader" in the
/// product string, or the tag "fastboot".
pub fn is_fastboot_device(device: &UsbDeviceRecord) -> (r: bool)
    ensures
        r == spec_is_fastboot(*device),
{
    let vid = device.id.vid;
    let pid = device.id.pid;
    if vid == 0x18d1 && (pid == 0x4ee0 || pid == 0xd00d || pid == 0x0d02) {
        return true;
    }
    if vid == 0x05c6 && pid == 0x9008 {
        return true;
    }
    if text_mentions(&device.descriptor.product, "fastboot") || text_mentions(&device.descriptor.product, "bootloader") {
        return true;
    }
    device.has_tag("fastboot")
}

/// Apple: Apple's vendor ID with a known iPhone/iPad/iPod product ID,
/// "apple" in the manufacturer string, "iphone", "ipad" or "ipod" in the
/// product string, or the tag "apple".
pub fn is_apple_device(device: &UsbDeviceRecord) -> (r: bool)
    ensures
        r == spec_is_apple(*device),
{
    let pid = device.id.pid;
    if device.id.vid == 0x05ac {
        if pid == 0x1290 || pid == 0x1291 || pid == 0x1292 || pid == 0x1293 || pid == 0x12a0 || pid == 0x12a1
            || pid == 0x12a2 || pid == 0x12a3 || pid == 0x1294 || pid == 0x1297 || pid == 0x129a
            || pid == 0x129c || pid == 0x12ab || pid == 0x12ac {
            return true;
        }
    }
    if text_mentions(&device.descriptor.manufacturer, "apple") {
        return true;
    }
    if text_mentions(&device.descriptor.product, "iphone") || text_mentions(&device.descriptor.product, "ipad")
        || text_mentions(&device.descriptor.product, "ipod") {
        return true;
    }
    device.has_tag("apple")
}

/// MTP: the interface triple class 6 / subclass 1 / protocol 1, "mtp" or
/// "media transfer" in the product string, "android" in the manufacturer
/// string with class 0x00 or 0xFF, or the tag "mtp".
pub fn is_mtp_device(device: &UsbDeviceRecord) -> (r: bool)
    ensures
        r == spec_is_mtp(*device),
{
    let d = &device.descriptor;
    if let (Some(class), Some(subclass), Some(protocol)) = (d.device_class, d.device_subclass, d.device_protocol) {
        if class == 0x06 && subclass == 0x01 && protocol == 0x01 {
            return true;
        }
    }
    if text_mentions(&d.product, "mtp") || text_mentions(&d.product, "media transfer") {
        return true;
    }
    if text_mentions(&d.manufacturer, "android") {
        if let Some(class) = d.device_class {
            if class == 0x00 || class == 0xFF {
                return true;
            }
        }
    }
    device.has_tag("mtp")
}

/// Every protocol whose rule matches, in the order ADB, Fastboot, Apple,
/// MTP; just `Unknown` when none does. Never empty.
pub fn classify_device_protocols(device: &UsbDeviceRecord) -> (r: Vec<DeviceProtocol>)
    ensures
        r@ == spec_classify(*device),
        r@.len() > 0,
        r@ == seq![DeviceProtocol::Unknown] <==> !(spec_is_adb(*device) || spec_is_fastboot(*device)
            || spec_is_apple(*device) || spec_is_mtp(*device)),
{
    let mut protocols: Vec<DeviceProtocol> = Vec::new();
    if is_adb_device(device) {
        protocols.push(DeviceProtocol::Adb);
    }
    if is_fastboot_device(device) {
        protocols.push(DeviceProtocol::Fastboot);
    }
    if is_apple_device(device) {
        protocols.push(DeviceProtocol::AppleDevice);
    }
    if is_mtp_device(device) {
        protocols.push(DeviceProtocol::Mtp);
    }
    proof {
        let d = *device;
        let found = found_protocols(d);
        assert(protocols@ =~= found);
    }
    if protocols.len() == 0 {
        protocols.push(DeviceProtocol::Unknown);
    }
    proof {
        if protocols@ == seq![DeviceProtocol::Unknown] {
            let d = *device;
            let found = found_protocols(d);
            if found.len() > 0 {
                assert(found[0] != DeviceProtocol::Unknown);
            }
        }
    }
    protocols
}

/// A protocol is in the classification exactly when its rule matches.
pub proof fn classify_lists_matches(d: UsbDeviceRecord, p: DeviceProtocol)
    requires
        !(p is Unknown),
    ensures
        spec_classify(d).contains(p) <==> spec_matches(d, p),
{
    let found = found_protocols(d);
    let a = opt_seq(spec_is_adb(d), DeviceProtocol::Adb);
    let b = opt_seq(spec_is_fastboot(d), DeviceProtocol::Fastboot);
    let c = opt_seq(spec_is_apple(d), DeviceProtocol::AppleDevice);
    let m = opt_seq(spec_is_mtp(d), DeviceProtocol::Mtp);
    if spec_matches(d, p) {
        match p {
            DeviceProtocol::Adb => { assert(found[0] == p); },
            DeviceProtocol::Fastboot => { assert(found[a.len() as int] == p); },
            DeviceProtocol::AppleDevice => { assert(found[(a.len() + b.len()) as int] == p); },
            DeviceProtocol::Mtp => { assert(found[(a.len() + b.len() + c.len()) as int] == p); },
            DeviceProtocol::Unknown => {},
        }
        assert(found.len() > 0);
    }
    if spec_classify(d).contains(p) {
        if found.len() == 0 {
            assert(spec_classify(d)[0] == DeviceProtocol::Unknown);
        } else {
            let i = choose|i: int| 0 <= i < found.len() && found[i] == p;
            assert(found == ((a + b) + c) + m);
            if i < a.len() {
                assert(found[i] == a[i]);
            } else if i < a.len() + b.len() {
                assert(found[i] == b[i - a.len()]);
            } else if i < a.len() + b.len() + c.len() {
                assert(found[i] == c[i - a.len() - b.len()]);
            } else {
                assert(found[i] == m[i - a.len() - b.len() - c.len()]);
            }
        }
    }
}

/// Classification is monotonic in tags: when `after` has the identity and
/// descriptors of `before`, every tag of `before` and the tag of protocol
/// `p`, then `after` classifies as `p` and keeps every protocol that
/// `before` matched.
pub proof fn classify_monotone_in_tags(before: UsbDeviceRecord, after: UsbDeviceRecord, p: DeviceProtocol)
    requires
        !(p is Unknown),
        after.id == before.id,
        after.descriptor == before.descriptor,
        forall|t: Seq<char>| spec_has_tag(before.tags@, t) ==> #[trigger] spec_has_tag(after.tags@, t),
        spec_has_tag(after.tags@, protocol_tag(p)),
    ensures
        spec_classify(after).contains(p),
        forall|q: DeviceProtocol| !(q is Unknown) && #[trigger] spec_classify(before).contains(q)
            ==> spec_classify(after).contains(q),
{
    assert(spec_has_tag(before.tags@, "adb"@) ==> spec_has_tag(after.tags@, "adb"@));
    assert(spec_has_tag(before.tags@, "fastboot"@) ==> spec_has_tag(after.tags@, "fastboot"@));
    assert(spec_has_tag(before.tags@, "apple"@) ==> spec_has_tag(after.tags@, "apple"@));
    assert(spec_has_tag(before.tags@, "mtp"@) ==> spec_has_tag(after.tags@, "mtp"@));
    classify_lists_matches(after, p);
    assert forall|q: DeviceProtocol| !(q is Unknown) && #[trigger] spec_classify(before).contains(q)
        implies spec_classify(after).contains(q) by {
        classify_lists_matches(before, q);
        classify_lists_matches(after, q);
    }
}

} // verus!
