//! Enumeration back ends and the look-ups built on any of them.
use crate::errors::UsbError;
use crate::model::UsbDeviceRecord;
use vstd::prelude::*;

verus! {

/// Position of the first record with vendor `vid` and product `pid`.
pub fn find_device(records: &Vec<UsbDeviceRecord>, vid: u16, pid: u16) -> (r: Option<usize>)
    ensures
        match r {
            Some(i) => i < records@.len() && records@[i as int].id.vid == vid && records@[i as int].id.pid == pid
                && forall|j: int| 0 <= j < i ==> !(#[trigger] records@[j].id.vid == vid && records@[j].id.pid == pid),
            None => forall|j: int| 0 <= j < records@.len() ==> !(#[trigger] records@[j].id.vid == vid && records@[j].id.pid == pid),
        },
{
    let mut i: usize = 0;
    while i < records.len()
        invariant
            i <= records@.len(),
            forall|j: int| 0 <= j < i ==> !(#[trigger] records@[j].id.vid == vid && records@[j].id.pid == pid),
        decreases records@.len() - i,
    {
        if records[i].id.vid == vid && records[i].id.pid == pid {
            return Some(i);
        }
        i = i + 1;
    }
    None
}

/// A way of discovering devices (a native USB library, a platform API).
pub trait UsbEnumerator {
    /// Every confirmed device. A device that cannot be read is skipped or
    /// reported with fields missing; only a failure to reach the USB
    /// subsystem is an error.
    fn enumerate(&self) -> Result<Vec<UsbDeviceRecord>, UsbError>;

    /// The first device with the given IDs.
    fn get_device(&self, vid: u16, pid: u16) -> (r: Result<Option<UsbDeviceRecord>, UsbError>)
        ensures
            r matches Ok(Some(d)) ==> d.id.vid == vid && d.id.pid == pid,
    {
        let mut records = match self.enumerate() {
            Ok(v) => v,
            Err(e) => return Err(e),
        };
        match find_device(&records, vid, pid) {
            Some(i) => Ok(Some(records.swap_remove(i))),
            None => Ok(None),
        }
    }

    /// Whether a device with the given IDs is attached.
    fn is_connected(&self, vid: u16, pid: u16) -> (r: Result<bool, UsbError>) {
        match self.get_device(vid, pid) {
            Ok(d) => Ok(d.is_some()),
            Err(e) => Err(e),
        }
    }
}

} // verus!
