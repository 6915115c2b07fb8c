//! Standard control requests: descriptors (two-phase where the length is
//! not known in advance), configuration, device status and vendor
//! pass-through.
use crate::errors::UsbError;
use crate::handle::{
    call_data, call_result, is_control_in, is_control_out, millis, mirrors, one_request, DeviceHandle, UsbCall,
    DEFAULT_TIMEOUT_MS,
};
use crate::request_type::{build, DIR_IN, DIR_OUT, RECIP_DEVICE, RECIP_INTERFACE, TYPE_STANDARD, TYPE_VENDOR};
use std::time::Duration;
use vstd::prelude::*;

verus! {

/// GET_STATUS request.
pub const GET_STATUS: u8 = 0x00;
/// CLEAR_FEATURE request.
pub const CLEAR_FEATURE: u8 = 0x01;
/// SET_FEATURE request.
pub const SET_FEATURE: u8 = 0x03;
/// SET_ADDRESS request.
pub const SET_ADDRESS: u8 = 0x05;
/// GET_DESCRIPTOR request.
pub const GET_DESCRIPTOR: u8 = 0x06;
/// SET_DESCRIPTOR request.
pub const SET_DESCRIPTOR: u8 = 0x07;
/// GET_CONFIGURATION request.
pub const GET_CONFIGURATION: u8 = 0x08;
/// SET_CONFIGURATION request.
pub const SET_CONFIGURATION: u8 = 0x09;
/// GET_INTERFACE request.
pub const GET_INTERFACE: u8 = 0x0A;
/// SET_INTERFACE request.
pub const SET_INTERFACE: u8 = 0x0B;
/// SYNCH_FRAME request.
pub const SYNCH_FRAME: u8 = 0x0C;

/// Device descriptor type.
pub const DESC_DEVICE: u8 = 0x01;
/// Configuration descriptor type.
pub const DESC_CONFIGURATION: u8 = 0x02;
/// String descriptor type.
pub const DESC_STRING: u8 = 0x03;
/// Interface descriptor type.
pub const DESC_INTERFACE: u8 = 0x04;
/// Endpoint descriptor type.
pub const DESC_ENDPOINT: u8 = 0x05;
/// Device qualifier descriptor type.
pub const DESC_DEVICE_QUALIFIER: u8 = 0x06;
/// Other-speed configuration descriptor type.
pub const DESC_OTHER_SPEED_CONFIG: u8 = 0x07;
/// Interface power descriptor type.
pub const DESC_INTERFACE_POWER: u8 = 0x08;
/// BOS descriptor type.
pub const DESC_BOS: u8 = 0x0F;
/// HID descriptor type.
pub const DESC_HID: u8 = 0x21;
/// HID report descriptor type.
pub const DESC_HID_REPORT: u8 = 0x22;

/// US English, the language assumed when a device lists none.
pub const LANG_US_ENGLISH: u16 = 0x0409;

/// Decoding of UTF-16 code units in which each unpaired surrogate becomes
/// U+FFFD.
pub uninterp spec fn utf16_lossy(units: Seq<u16>) -> Seq<char>;

/// Relies on `String::from_utf16_lossy`: the result depends on the code
/// units alone.
#[verifier::external_body]
fn from_utf16_lossy(units: &[u16]) -> (r: String)
    ensures
        r@ == utf16_lossy(units@),
{
    String::from_utf16_lossy(units)
}

/// The little-endian `u16` values of consecutive byte pairs; an odd last
/// byte is dropped.
pub open spec fn le_units(bytes: Seq<u8>) -> Seq<u16> {
    Seq::new(bytes.len() / 2, |i: int| (bytes[2 * i] as int + 256 * (bytes[2 * i + 1] as int)) as u16)
}

/// Pairs up bytes into little-endian `u16` values.
pub fn le_units_of(bytes: &[u8]) -> (r: Vec<u16>)
    ensures
        r@ == le_units(bytes@),
{
    let mut out: Vec<u16> = Vec::new();
    let len = bytes.len();
    let n = len / 2;
    let mut i: usize = 0;
    while i < n
        invariant
            len == bytes@.len(),
            n == len / 2,
            2 * n <= len,
            i <= n,
            out@ == le_units(bytes@).subrange(0, i as int),
        decreases n - i,
    {
        assert(i + i + 1 < bytes@.len());
        let j: usize = i + i;
        let v: u16 = bytes[j] as u16 + 256 * (bytes[j + 1] as u16);
        out.push(v);
        proof {
            assert(le_units(bytes@).subrange(0, i + 1) =~= le_units(bytes@).subrange(0, i as int).push(v));
        }
        i = i + 1;
    }
    assert(le_units(bytes@).subrange(0, n as int) =~= le_units(bytes@));
    out
}

/// The text of a string descriptor: the UTF-16LE payload after the two
/// header bytes, decoded permissively. Fails when fewer than two bytes came.
pub fn decode_string_descriptor(data: &[u8]) -> (r: Result<String, UsbError>)
    ensures
        r is Err <==> data@.len() < 2,
        r matches Ok(s) ==> s@ == utf16_lossy(le_units(data@.subrange(2, data@.len() as int))),
        r matches Err(e) ==> e is Parse,
{
    if data.len() < 2 {
        return Err(UsbError::Parse("String descriptor too short".to_string()));
    }
    let payload = &data[2..data.len()];
    let units = le_units_of(payload);
    Ok(from_utf16_lossy(units.as_slice()))
}

/// The language IDs of string descriptor zero; US English when it holds
/// fewer than four bytes.
pub fn decode_language_ids(data: &[u8]) -> (r: Vec<u16>)
    ensures
        data@.len() < 4 ==> r@ == seq![LANG_US_ENGLISH],
        data@.len() >= 4 ==> r@ == le_units(data@.subrange(2, data@.len() as int)),
{
    if data.len() < 4 {
        return vec![LANG_US_ENGLISH];
    }
    le_units_of(&data[2..data.len()])
}

/// The total length that a configuration or BOS descriptor header states
/// in its bytes 2 and 3.
pub fn header_total_length(header: &[u8]) -> (r: usize)
    requires
        header@.len() >= 4,
    ensures
        r == header@[2] as int + 256 * (header@[3] as int),
{
    header[2] as usize + 256 * (header[3] as usize)
}

/// Control transfer helper with a timeout.
pub struct ControlTransfer<'a, H: DeviceHandle> {
    handle: &'a mut H,
    timeout: Duration,
}

/// `r` is what a descriptor read returns for request `c`: the bytes
/// received, or the request's error.
pub open spec fn received(c: UsbCall, r: Result<Vec<u8>, UsbError>) -> bool {
    match call_result(c) {
        Ok(n) => r matches Ok(v) && v@ == call_data(c).subrange(0, n as int),
        Err(e) => r matches Err(x) && x == e,
    }
}

/// A standard device-to-host GET_DESCRIPTOR for `value` / `index` into
/// `len` bytes.
pub open spec fn is_get_descriptor(c: UsbCall, recipient: u8, value: u16, index: u16, len: usize, timeout: Duration) -> bool {
    is_control_in(c, DIR_IN | TYPE_STANDARD | recipient, GET_DESCRIPTOR, value, index, len, timeout)
}

impl<'a, H: DeviceHandle> ControlTransfer<'a, H> {
    pub closed spec fn spec_timeout(&self) -> Duration {
        self.timeout
    }

    /// The requests made through the device handle so far.
    pub closed spec fn calls(&self) -> Seq<UsbCall> {
        self.handle.calls()
    }

    pub fn new(handle: &'a mut H) -> (r: Self)
        ensures
            r.calls() == old(handle).calls(),
    {
        ControlTransfer { handle, timeout: millis(DEFAULT_TIMEOUT_MS) }
    }

    pub fn with_timeout(self, timeout: Duration) -> (r: Self)
        ensures
            r.spec_timeout() == timeout,
            r.calls() == self.calls(),
    {
        ControlTransfer { timeout, ..self }
    }

    /// A standard device-to-host GET_DESCRIPTOR into `len` bytes, cut to
    /// what arrived.
    fn read_descriptor(&mut self, recipient: u8, value: u16, index: u16, len: usize) -> (r: Result<Vec<u8>, UsbError>)
        ensures
            r matches Ok(v) ==> v@.len() <= len,
            final(self).spec_timeout() == old(self).spec_timeout(),
            one_request(old(self).calls(), final(self).calls()),
            is_get_descriptor(final(self).calls().last(), recipient, value, index, len, old(self).spec_timeout()),
            received(final(self).calls().last(), r),
            call_result(final(self).calls().last()) matches Ok(n) ==> n <= call_data(final(self).calls().last()).len()
                && call_data(final(self).calls().last()).len() == len,
    {
        let mut buf: Vec<u8> = vec![0u8; len];
        let request_type = build(DIR_IN, TYPE_STANDARD, recipient);
        let n = match self.handle.control_read(request_type, GET_DESCRIPTOR, value, index, buf.as_mut_slice(), self.timeout) {
            Ok(n) => n,
            Err(e) => return Err(e),
        };
        buf.truncate(n);
        assert(buf@ =~= call_data(self.calls().last()).subrange(0, n as int));
        Ok(buf)
    }

    /// A descriptor of unknown length: the header first, for the total
    /// length in its bytes 2-3, then the whole descriptor.
    fn read_two_phase(&mut self, value: u16, header_len: usize) -> (r: Result<Vec<u8>, UsbError>)
        requires
            header_len >= 4,
        ensures
            r matches Ok(v) ==> v@.len() <= 0xFFFF,
            final(self).spec_timeout() == old(self).spec_timeout(),
            two_phase(old(self).calls(), final(self).calls(), value, header_len, old(self).spec_timeout(), r),
    {
        let mut header: Vec<u8> = vec![0u8; header_len];
        let request_type = build(DIR_IN, TYPE_STANDARD, RECIP_DEVICE);
        match self.handle.control_read(request_type, GET_DESCRIPTOR, value, 0, header.as_mut_slice(), self.timeout) {
            Ok(_) => {},
            Err(e) => return Err(e),
        }
        let ghost mid = self.calls();
        let total = header_total_length(header.as_slice());
        let r = self.read_descriptor(RECIP_DEVICE, value, 0, total);
        assert(self.calls().drop_last() == mid);
        r
    }

    /// The 18-byte device descriptor: one GET_DESCRIPTOR, the bytes received.
    pub fn get_device_descriptor(&mut self) -> (r: Result<Vec<u8>, UsbError>)
        ensures
            r matches Ok(v) ==> v@.len() <= 18,
            one_request(old(self).calls(), final(self).calls()),
            is_get_descriptor(final(self).calls().last(), RECIP_DEVICE, 0x0100, 0, 18, old(self).spec_timeout()),
            received(final(self).calls().last(), r),
    {
        self.read_descriptor(RECIP_DEVICE, (DESC_DEVICE as u16) * 256, 0, 18)
    }

    /// The full configuration descriptor `index`: a 9-byte header read,
    /// then a read sized to the total length the header states.
    pub fn get_configuration_descriptor(&mut self, index: u8) -> (r: Result<Vec<u8>, UsbError>)
        ensures
            r matches Ok(v) ==> v@.len() <= 0xFFFF,
            two_phase(old(self).calls(), final(self).calls(), (0x0200 + index as int) as u16, 9, old(self).spec_timeout(), r),
    {
        self.read_two_phase((DESC_CONFIGURATION as u16) * 256 + index as u16, 9)
    }

    /// String descriptor `index` in language `lang_id` (one 255-byte
    /// GET_DESCRIPTOR), decoded from the bytes received.
    pub fn get_string_descriptor(&mut self, index: u8, lang_id: u16) -> (r: Result<String, UsbError>)
        ensures
            one_request(old(self).calls(), final(self).calls()),
            is_get_descriptor(
                final(self).calls().last(),
                RECIP_DEVICE,
                (0x0300 + index as int) as u16,
                lang_id,
                255,
                old(self).spec_timeout(),
            ),
            ({
                let c = final(self).calls().last();
                match call_result(c) {
                    Ok(n) => if n < 2 {
                        r matches Err(e) && e is Parse
                    } else {
                        r matches Ok(s) && s@ == utf16_lossy(le_units(call_data(c).subrange(2, n as int)))
                    },
                    Err(e) => r matches Err(x) && x == e,
                }
            }),
    {
        let data = self.read_descriptor(RECIP_DEVICE, (DESC_STRING as u16) * 256 + index as u16, lang_id, 255);
        match data {
            Ok(bytes) => {
                let ghost c = self.calls().last();
                assert(bytes@ == call_data(c).subrange(0, call_result(c)->Ok_0 as int));
                if bytes.len() >= 2 {
                    assert(bytes@.subrange(2, bytes@.len() as int) =~= call_data(c).subrange(2, bytes@.len() as int));
                }
                decode_string_descriptor(bytes.as_slice())
            },
            Err(e) => Err(e),
        }
    }

    /// The language IDs that the device supports, from string descriptor
    /// zero (US English when it is shorter than four bytes).
    pub fn get_language_ids(&mut self) -> (r: Result<Vec<u16>, UsbError>)
        ensures
            r matches Ok(v) ==> v@.len() > 0 && v@.len() <= 126,
            one_request(old(self).calls(), final(self).calls()),
            is_get_descriptor(final(self).calls().last(), RECIP_DEVICE, 0x0300, 0, 255, old(self).spec_timeout()),
            ({
                let c = final(self).calls().last();
                match call_result(c) {
                    Ok(n) => if n < 4 {
                        r matches Ok(v) && v@ == seq![LANG_US_ENGLISH]
                    } else {
                        r matches Ok(v) && v@ == le_units(call_data(c).subrange(2, n as int))
                    },
                    Err(e) => r matches Err(x) && x == e,
                }
            }),
    {
        let data = match self.read_descriptor(RECIP_DEVICE, (DESC_STRING as u16) * 256, 0, 255) {
            Ok(d) => d,
            Err(e) => return Err(e),
        };
        let ids = decode_language_ids(data.as_slice());
        if data.len() >= 4 {
            assert(ids@.len() == (data@.len() - 2) / 2);
            let ghost c = self.calls().last();
            assert(data@ == call_data(c).subrange(0, call_result(c)->Ok_0 as int));
            assert(data@.subrange(2, data@.len() as int) =~= call_data(c).subrange(2, data@.len() as int));
        }
        Ok(ids)
    }

    /// The full BOS descriptor: a 5-byte header read, then a read sized to
    /// the total length the header states.
    pub fn get_bos_descriptor(&mut self) -> (r: Result<Vec<u8>, UsbError>)
        ensures
            r matches Ok(v) ==> v@.len() <= 0xFFFF,
            two_phase(old(self).calls(), final(self).calls(), 0x0F00, 5, old(self).spec_timeout(), r),
    {
        self.read_two_phase((DESC_BOS as u16) * 256, 5)
    }

    /// The HID report descriptor of `interface`, at most `length` bytes.
    pub fn get_hid_report_descriptor(&mut self, interface: u16, length: u16) -> (r: Result<Vec<u8>, UsbError>)
        ensures
            r matches Ok(v) ==> v@.len() <= length,
            one_request(old(self).calls(), final(self).calls()),
            is_get_descriptor(final(self).calls().last(), RECIP_INTERFACE, 0x2200, interface, length as usize, old(self).spec_timeout()),
            received(final(self).calls().last(), r),
    {
        self.read_descriptor(RECIP_INTERFACE, (DESC_HID_REPORT as u16) * 256, interface, length as usize)
    }

    /// SET_CONFIGURATION with value `config`.
    pub fn set_configuration(&mut self, config: u8) -> (r: Result<(), UsbError>)
        ensures
            one_request(old(self).calls(), final(self).calls()),
            is_control_out(final(self).calls().last(), DIR_OUT | TYPE_STANDARD | RECIP_DEVICE, SET_CONFIGURATION, config as u16, 0, old(self).spec_timeout()),
            mirrors(r, call_result(final(self).calls().last())),
    {
        let request_type = build(DIR_OUT, TYPE_STANDARD, RECIP_DEVICE);
        let empty: Vec<u8> = Vec::new();
        match self.handle.control_write(request_type, SET_CONFIGURATION, config as u16, 0, empty.as_slice(), self.timeout) {
            Ok(_) => Ok(()),
            Err(e) => Err(e),
        }
    }

    /// GET_STATUS of the device: two bytes, little-endian.
    pub fn get_device_status(&mut self) -> (r: Result<u16, UsbError>)
        ensures
            one_request(old(self).calls(), final(self).calls()),
            is_control_in(final(self).calls().last(), DIR_IN | TYPE_STANDARD | RECIP_DEVICE, GET_STATUS, 0, 0, 2, old(self).spec_timeout()),
            ({
                let c = final(self).calls().last();
                match call_result(c) {
                    Ok(_) => r == Ok::<u16, UsbError>((call_data(c)[0] as int + 256 * call_data(c)[1] as int) as u16),
                    Err(e) => r == Err::<u16, UsbError>(e),
                }
            }),
    {
        let mut buf: Vec<u8> = vec![0u8; 2];
        let request_type = build(DIR_IN, TYPE_STANDARD, RECIP_DEVICE);
        match self.handle.control_read(request_type, GET_STATUS, 0, 0, buf.as_mut_slice(), self.timeout) {
            Ok(_) => {},
            Err(e) => return Err(e),
        }
        Ok(buf[0] as u16 + 256 * (buf[1] as u16))
    }

    /// Vendor-specific device-to-host request: request, value, index and
    /// buffer go to the device unchanged, and its answer is the result.
    pub fn vendor_read(&mut self, request: u8, value: u16, index: u16, buf: &mut [u8]) -> (r: Result<usize, UsbError>)
        ensures
            final(buf)@.len() == old(buf)@.len(),
            r matches Ok(n) ==> n <= old(buf)@.len(),
            final(self).calls() == old(self).calls().push(
                UsbCall::ControlRead {
                    request_type: DIR_IN | TYPE_VENDOR | RECIP_DEVICE,
                    request,
                    value,
                    index,
                    len: old(buf)@.len() as usize,
                    timeout: old(self).spec_timeout(),
                    result: r,
                    data: final(buf)@,
                },
            ),
    {
        let request_type = build(DIR_IN, TYPE_VENDOR, RECIP_DEVICE);
        self.handle.control_read(request_type, request, value, index, buf, self.timeout)
    }

    /// Vendor-specific host-to-device request: request, value, index and
    /// data go to the device unchanged, and its answer is the result.
    pub fn vendor_write(&mut self, request: u8, value: u16, index: u16, buf: &[u8]) -> (r: Result<usize, UsbError>)
        ensures
            r matches Ok(n) ==> n <= buf@.len(),
            final(self).calls() == old(self).calls().push(
                UsbCall::ControlWrite {
                    request_type: DIR_OUT | TYPE_VENDOR | RECIP_DEVICE,
                    request,
                    value,
                    index,
                    data: buf@,
                    timeout: old(self).spec_timeout(),
                    result: r,
                },
            ),
    {
        let request_type = build(DIR_OUT, TYPE_VENDOR, RECIP_DEVICE);
        self.handle.control_write(request_type, request, value, index, buf, self.timeout)
    }
}

/// The requests of a two-phase descriptor read, from `before` to `after`:
/// a header read of `header_len` bytes; when it fails, its error and
/// nothing else; otherwise a second read of the same descriptor sized to
/// the total length in bytes 2-3 of the header, whose bytes are the result.
pub open spec fn two_phase(
    before: Seq<UsbCall>,
    after: Seq<UsbCall>,
    value: u16,
    header_len: usize,
    timeout: Duration,
    r: Result<Vec<u8>, UsbError>,
) -> bool {
    &&& after.len() > before.len()
    &&& is_get_descriptor(after[before.len() as int], RECIP_DEVICE, value, 0, header_len, timeout)
    &&& match call_result(after[before.len() as int]) {
        Err(e) => after == before.push(after.last()) && (r matches Err(x) && x == e),
        Ok(_) => {
            let h = call_data(after[before.len() as int]);
            &&& after.len() == before.len() + 2
            &&& after.drop_last() == before.push(after[before.len() as int])
            &&& is_get_descriptor(after.last(), RECIP_DEVICE, value, 0, (h[2] as int + 256 * h[3] as int) as usize, timeout)
            &&& received(after.last(), r)
        },
    }
}

} // verus!
