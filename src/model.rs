//! The record that discovery produces for each confirmed device.
use crate::text::{concat, eq_ascii_nocase, fmt_hex4_upper, padded, str_eq_ascii_nocase};
use vstd::prelude::*;

verus! {

/// Vendor and product ID: identifies a device type, not an instance.
#[derive(Debug, Clone, Copy, PartialEq, Eq, Hash, Structural)]
pub struct UsbId {
    pub vid: u16,
    pub pid: u16,
}

impl UsbId {
    pub fn new(vid: u16, pid: u16) -> (r: Self)
        ensures
            r.vid == vid,
            r.pid == pid,
    {
        UsbId { vid, pid }
    }

    /// "VVVV:PPPP" in upper-case hex.
    pub fn as_hex_string(&self) -> (r: String)
        ensures
            r@ == padded(self.vid as nat, 16, 4, true) + ":"@ + padded(self.pid as nat, 16, 4, true),
    {
        let v = fmt_hex4_upper(self.vid);
        let head = concat(v.as_str(), ":");
        let p = fmt_hex4_upper(self.pid);
        concat(head.as_str(), p.as_str())
    }
}

/// Where a device sits: bus and address change across reconnects, the port
/// path stays while the device stays in the same port.
#[derive(Debug, Clone)]
pub struct UsbLocation {
    pub bus: Option<u8>,
    pub address: Option<u8>,
    pub port_path: Option<String>,
}

/// String descriptors and class codes, each read best-effort.
#[derive(Debug, Clone)]
pub struct UsbDescriptorSummary {
    pub manufacturer: Option<String>,
    pub product: Option<String>,
    pub serial_number: Option<String>,
    pub device_class: Option<u8>,
    pub device_subclass: Option<u8>,
    pub device_protocol: Option<u8>,
    pub usb_version: Option<String>,
}

/// Operating-system driver binding.
#[derive(Debug, Clone)]
pub enum DriverStatus {
    Unknown,
    Bound { name: String },
    Missing,
    Blocked { reason: String },
    Multiple { drivers: Vec<String> },
}

/// Connection health.
#[derive(Debug, Clone)]
pub enum LinkHealth {
    Good,
    Unstable { reason: String },
    PowerIssueHint { reason: String },
    ResetLoop,
    Disconnected,
}

/// A confirmed device: identity, location, descriptors, driver and link
/// status, classification tags and optional raw platform data.
#[derive(Debug, Clone)]
pub struct UsbDeviceRecord {
    pub id: UsbId,
    pub location: UsbLocation,
    pub descriptor: UsbDescriptorSummary,
    pub driver: DriverStatus,
    pub health: LinkHealth,
    pub tags: Vec<String>,
    pub raw_data: Option<String>,
}

/// Some tag equals `tag` up to ASCII case.
pub open spec fn spec_has_tag(tags: Seq<String>, tag: Seq<char>) -> bool {
    exists|i: int| 0 <= i < tags.len() && eq_ascii_nocase(#[trigger] tags[i]@, tag)
}

/// The tags after adding `tag` to a set that ignores ASCII case:
/// unchanged when it is there in any case, else with it appended.
pub open spec fn tags_added(old_tags: Seq<String>, new_tags: Seq<String>, tag: Seq<char>) -> bool {
    if spec_has_tag(old_tags, tag) {
        new_tags == old_tags
    } else {
        new_tags.len() == old_tags.len() + 1 && new_tags.drop_last() == old_tags && new_tags.last()@ == tag
    }
}

/// Tests membership of `tag`, ignoring ASCII case.
pub fn tags_have(tags: &Vec<String>, tag: &str) -> (r: bool)
    ensures
        r == spec_has_tag(tags@, tag@),
{
    let mut i: usize = 0;
    while i < tags.len()
        invariant
            i <= tags@.len(),
            forall|j: int| 0 <= j < i ==> !eq_ascii_nocase(#[trigger] tags@[j]@, tag@),
        decreases tags@.len() - i,
    {
        if str_eq_ascii_nocase(tags[i].as_str(), tag) {
            return true;
        }
        i = i + 1;
    }
    false
}

/// Adds `tag` unless it is there already, ignoring ASCII case.
pub fn tags_add(tags: &mut Vec<String>, tag: &str)
    ensures
        tags_added(old(tags)@, final(tags)@, tag@),
{
    if tags_have(tags, tag) {
        return;
    }
    tags.push(tag.to_string());
    assert(tags@.drop_last() =~= old(tags)@);
}

/// Adding a tag keeps every tag there was, and the added one is there.
pub proof fn tags_added_keeps(old_tags: Seq<String>, new_tags: Seq<String>, tag: Seq<char>, other: Seq<char>)
    requires
        tags_added(old_tags, new_tags, tag),
    ensures
        spec_has_tag(new_tags, tag),
        spec_has_tag(old_tags, other) ==> spec_has_tag(new_tags, other),
{
    if spec_has_tag(old_tags, tag) {
    } else {
        let n = old_tags.len() as int;
        assert(new_tags[n]@ == tag);
        assert(eq_ascii_nocase(new_tags[n]@, tag));
        if spec_has_tag(old_tags, other) {
            let i = choose|i: int| 0 <= i < old_tags.len() && eq_ascii_nocase(#[trigger] old_tags[i]@, other);
            assert(new_tags[i] == new_tags.drop_last()[i]);
            assert(eq_ascii_nocase(new_tags[i]@, other));
        }
    }
}

impl UsbDeviceRecord {
    /// Whether the record carries `tag`, ignoring ASCII case.
    pub fn has_tag(&self, tag: &str) -> (r: bool)
        ensures
            r == spec_has_tag(self.tags@, tag@),
    {
        tags_have(&self.tags, tag)
    }

    /// Adds `tag` unless it is there already, ignoring ASCII case.
    pub fn add_tag(&mut self, tag: &str)
        ensures
            tags_added(old(self).tags@, final(self).tags@, tag@),
            final(self).id == old(self).id,
            final(self).location == old(self).location,
            final(self).descriptor == old(self).descriptor,
            final(self).driver == old(self).driver,
            final(self).health == old(self).health,
            final(self).raw_data == old(self).raw_data,
    {
        tags_add(&mut self.tags, tag);
    }
}

} // verus!
