//! USB Device Firmware Upgrade (DFU) class: device states and status codes,
//! the fixed-layout status and functional-descriptor payloads, and a client
//! that drives the download and upload sequences.
use crate::chunks::{block_end, block_len, chunk_ends};
use crate::errors::UsbError;
use crate::handle::{
    added, call_data, call_result, extends, is_control_in, is_control_out, lemma_added_concat, lemma_added_prefix,
    lemma_added_push,
    lemma_extends_refl,
    lemma_extends_trans, millis, mirrors, one_request, DeviceHandle, UsbCall,
};
use crate::protocol::UsbProtocol;
use crate::text::{concat, decimal, fmt_decimal};
use std::time::Duration;
use vstd::prelude::*;

verus! {

broadcast use vstd::string::to_string_from_display_ensures_for_str;

/// DETACH class request.
pub const DFU_DETACH: u8 = 0;
/// DNLOAD class request.
pub const DFU_DNLOAD: u8 = 1;
/// UPLOAD class request.
pub const DFU_UPLOAD: u8 = 2;
/// GETSTATUS class request.
pub const DFU_GETSTATUS: u8 = 3;
/// CLRSTATUS class request.
pub const DFU_CLRSTATUS: u8 = 4;
/// GETSTATE class request.
pub const DFU_GETSTATE: u8 = 5;
/// ABORT class request.
pub const DFU_ABORT: u8 = 6;

/// Device-to-host, class, interface.
pub const DFU_REQUEST_IN: u8 = 0xA1;
/// Host-to-device, class, interface.
pub const DFU_REQUEST_OUT: u8 = 0x21;

/// The state that a DFU device reports.
#[derive(Debug, Clone, Copy, PartialEq, Eq, Structural)]
pub enum DfuState {
    AppIdle,
    AppDetach,
    DfuIdle,
    DfuDnloadSync,
    DfuDnBusy,
    DfuDnloadIdle,
    DfuManifestSync,
    DfuManifest,
    DfuManifestWaitReset,
    DfuUploadIdle,
    DfuError,
}

impl DfuState {
    /// The state a byte stands for; an unknown byte is the error state.
    pub open spec fn spec_from_byte(b: u8) -> DfuState {
        if b == 0 { DfuState::AppIdle }
        else if b == 1 { DfuState::AppDetach }
        else if b == 2 { DfuState::DfuIdle }
        else if b == 3 { DfuState::DfuDnloadSync }
        else if b == 4 { DfuState::DfuDnBusy }
        else if b == 5 { DfuState::DfuDnloadIdle }
        else if b == 6 { DfuState::DfuManifestSync }
        else if b == 7 { DfuState::DfuManifest }
        else if b == 8 { DfuState::DfuManifestWaitReset }
        else if b == 9 { DfuState::DfuUploadIdle }
        else { DfuState::DfuError }
    }

    /// The byte by which a device reports the state.
    pub open spec fn spec_to_byte(self) -> u8 {
        match self {
            DfuState::AppIdle => 0,
            DfuState::AppDetach => 1,
            DfuState::DfuIdle => 2,
            DfuState::DfuDnloadSync => 3,
            DfuState::DfuDnBusy => 4,
            DfuState::DfuDnloadIdle => 5,
            DfuState::DfuManifestSync => 6,
            DfuState::DfuManifest => 7,
            DfuState::DfuManifestWaitReset => 8,
            DfuState::DfuUploadIdle => 9,
            DfuState::DfuError => 10,
        }
    }

    pub open spec fn spec_name(self) -> Seq<char> {
        match self {
            DfuState::AppIdle => "appIDLE"@,
            DfuState::AppDetach => "appDETACH"@,
            DfuState::DfuIdle => "dfuIDLE"@,
            DfuState::DfuDnloadSync => "dfuDNLOAD-SYNC"@,
            DfuState::DfuDnBusy => "dfuDNBUSY"@,
            DfuState::DfuDnloadIdle => "dfuDNLOAD-IDLE"@,
            DfuState::DfuManifestSync => "dfuMANIFEST-SYNC"@,
            DfuState::DfuManifest => "dfuMANIFEST"@,
            DfuState::DfuManifestWaitReset => "dfuMANIFEST-WAIT-RESET"@,
            DfuState::DfuUploadIdle => "dfuUPLOAD-IDLE"@,
            DfuState::DfuError => "dfuERROR"@,
        }
    }

    pub open spec fn spec_is_dfu_mode(self) -> bool {
        !(self is AppIdle || self is AppDetach)
    }

    /// Decodes a reported state byte.
    pub fn from_byte(b: u8) -> (r: Self)
        ensures
            r == Self::spec_from_byte(b),
    {
        match b {
            0 => DfuState::AppIdle,
            1 => DfuState::AppDetach,
            2 => DfuState::DfuIdle,
            3 => DfuState::DfuDnloadSync,
            4 => DfuState::DfuDnBusy,
            5 => DfuState::DfuDnloadIdle,
            6 => DfuState::DfuManifestSync,
            7 => DfuState::DfuManifest,
            8 => DfuState::DfuManifestWaitReset,
            9 => DfuState::DfuUploadIdle,
            _ => DfuState::DfuError,
        }
    }

    /// The state's name as the DFU class specification writes it.
    pub fn name(&self) -> (r: &'static str)
        ensures
            r@ == self.spec_name(),
    {
        match self {
            DfuState::AppIdle => "appIDLE",
            DfuState::AppDetach => "appDETACH",
            DfuState::DfuIdle => "dfuIDLE",
            DfuState::DfuDnloadSync => "dfuDNLOAD-SYNC",
            DfuState::DfuDnBusy => "dfuDNBUSY",
            DfuState::DfuDnloadIdle => "dfuDNLOAD-IDLE",
            DfuState::DfuManifestSync => "dfuMANIFEST-SYNC",
            DfuState::DfuManifest => "dfuMANIFEST",
            DfuState::DfuManifestWaitReset => "dfuMANIFEST-WAIT-RESET",
            DfuState::DfuUploadIdle => "dfuUPLOAD-IDLE",
            DfuState::DfuError => "dfuERROR",
        }
    }

    /// True in every state but the two application states.
    pub fn is_dfu_mode(&self) -> (r: bool)
        ensures
            r == self.spec_is_dfu_mode(),
    {
        match self {
            DfuState::AppIdle | DfuState::AppDetach => false,
            _ => true,
        }
    }
}

/// The status code that a DFU device reports.
#[derive(Debug, Clone, Copy, PartialEq, Eq, Structural)]
pub enum DfuStatus {
    /// No error: the only success status ("OK").
    NoError,
    ErrTarget,
    ErrFile,
    ErrWrite,
    ErrErase,
    ErrCheckErased,
    ErrProg,
    ErrVerify,
    ErrAddress,
    ErrNotdone,
    ErrFirmware,
    ErrVendor,
    ErrUsbr,
    ErrPor,
    ErrUnknown,
    ErrStalledPkt,
}

impl DfuStatus {
    /// The status a byte stands for; a byte above 0x0E is a stalled packet.
    pub open spec fn spec_from_byte(b: u8) -> DfuStatus {
        if b == 0 { DfuStatus::NoError }
        else if b == 1 { DfuStatus::ErrTarget }
        else if b == 2 { DfuStatus::ErrFile }
        else if b == 3 { DfuStatus::ErrWrite }
        else if b == 4 { DfuStatus::ErrErase }
        else if b == 5 { DfuStatus::ErrCheckErased }
        else if b == 6 { DfuStatus::ErrProg }
        else if b == 7 { DfuStatus::ErrVerify }
        else if b == 8 { DfuStatus::ErrAddress }
        else if b == 9 { DfuStatus::ErrNotdone }
        else if b == 10 { DfuStatus::ErrFirmware }
        else if b == 11 { DfuStatus::ErrVendor }
        else if b == 12 { DfuStatus::ErrUsbr }
        else if b == 13 { DfuStatus::ErrPor }
        else if b == 14 { DfuStatus::ErrUnknown }
        else { DfuStatus::ErrStalledPkt }
    }

    /// The byte by which a device reports the status.
    pub open spec fn spec_to_byte(self) -> u8 {
        match self {
            DfuStatus::NoError => 0,
            DfuStatus::ErrTarget => 1,
            DfuStatus::ErrFile => 2,
            DfuStatus::ErrWrite => 3,
            DfuStatus::ErrErase => 4,
            DfuStatus::ErrCheckErased => 5,
            DfuStatus::ErrProg => 6,
            DfuStatus::ErrVerify => 7,
            DfuStatus::ErrAddress => 8,
            DfuStatus::ErrNotdone => 9,
            DfuStatus::ErrFirmware => 10,
            DfuStatus::ErrVendor => 11,
            DfuStatus::ErrUsbr => 12,
            DfuStatus::ErrPor => 13,
            DfuStatus::ErrUnknown => 14,
            DfuStatus::ErrStalledPkt => 15,
        }
    }

    pub open spec fn spec_name(self) -> Seq<char> {
        match self {
            DfuStatus::NoError => "OK"@,
            DfuStatus::ErrTarget => "errTARGET"@,
            DfuStatus::ErrFile => "errFILE"@,
            DfuStatus::ErrWrite => "errWRITE"@,
            DfuStatus::ErrErase => "errERASE"@,
            DfuStatus::ErrCheckErased => "errCHECK_ERASED"@,
            DfuStatus::ErrProg => "errPROG"@,
            DfuStatus::ErrVerify => "errVERIFY"@,
            DfuStatus::ErrAddress => "errADDRESS"@,
            DfuStatus::ErrNotdone => "errNOTDONE"@,
            DfuStatus::ErrFirmware => "errFIRMWARE"@,
            DfuStatus::ErrVendor => "errVENDOR"@,
            DfuStatus::ErrUsbr => "errUSBR"@,
            DfuStatus::ErrPor => "errPOR"@,
            DfuStatus::ErrUnknown => "errUNKNOWN"@,
            DfuStatus::ErrStalledPkt => "errSTALLEDPKT"@,
        }
    }

    /// Decodes a reported status byte.
    pub fn from_byte(b: u8) -> (r: Self)
        ensures
            r == Self::spec_from_byte(b),
    {
        match b {
            0x00 => DfuStatus::NoError,
            0x01 => DfuStatus::ErrTarget,
            0x02 => DfuStatus::ErrFile,
            0x03 => DfuStatus::ErrWrite,
            0x04 => DfuStatus::ErrErase,
            0x05 => DfuStatus::ErrCheckErased,
            0x06 => DfuStatus::ErrProg,
            0x07 => DfuStatus::ErrVerify,
            0x08 => DfuStatus::ErrAddress,
            0x09 => DfuStatus::ErrNotdone,
            0x0A => DfuStatus::ErrFirmware,
            0x0B => DfuStatus::ErrVendor,
            0x0C => DfuStatus::ErrUsbr,
            0x0D => DfuStatus::ErrPor,
            0x0E => DfuStatus::ErrUnknown,
            _ => DfuStatus::ErrStalledPkt,
        }
    }

    /// The status's name as the DFU class specification writes it.
    pub fn name(&self) -> (r: &'static str)
        ensures
            r@ == self.spec_name(),
    {
        match self {
            DfuStatus::NoError => "OK",
            DfuStatus::ErrTarget => "errTARGET",
            DfuStatus::ErrFile => "errFILE",
            DfuStatus::ErrWrite => "errWRITE",
            DfuStatus::ErrErase => "errERASE",
            DfuStatus::ErrCheckErased => "errCHECK_ERASED",
            DfuStatus::ErrProg => "errPROG",
            DfuStatus::ErrVerify => "errVERIFY",
            DfuStatus::ErrAddress => "errADDRESS",
            DfuStatus::ErrNotdone => "errNOTDONE",
            DfuStatus::ErrFirmware => "errFIRMWARE",
            DfuStatus::ErrVendor => "errVENDOR",
            DfuStatus::ErrUsbr => "errUSBR",
            DfuStatus::ErrPor => "errPOR",
            DfuStatus::ErrUnknown => "errUNKNOWN",
            DfuStatus::ErrStalledPkt => "errSTALLEDPKT",
        }
    }

    /// True of `NoError` alone.
    pub fn is_ok(&self) -> (r: bool)
        ensures
            r == (*self is NoError),
    {
        match self {
            DfuStatus::NoError => true,
            _ => false,
        }
    }
}

/// A decoded GETSTATUS response.
#[derive(Debug, Clone, Copy, PartialEq, Eq, Structural)]
pub struct DfuStatusResponse {
    pub status: DfuStatus,
    /// Milliseconds to wait before the next GETSTATUS (24 bits).
    pub poll_timeout: u32,
    pub state: DfuState,
    /// Index of a string descriptor describing the status.
    pub i_string: u8,
}

/// Length of a GETSTATUS response.
pub const DFU_STATUS_LEN: usize = 6;

/// Little-endian value of three bytes.
pub open spec fn le24(b0: u8, b1: u8, b2: u8) -> u32 {
    (b0 as int + 256 * (b1 as int) + 65536 * (b2 as int)) as u32
}

/// Little-endian value of two bytes.
pub open spec fn le16(b0: u8, b1: u8) -> u16 {
    (b0 as int + 256 * (b1 as int)) as u16
}

/// The response that the first six bytes of `data` encode.
pub open spec fn spec_status_response(data: Seq<u8>) -> DfuStatusResponse {
    DfuStatusResponse {
        status: DfuStatus::spec_from_byte(data[0]),
        poll_timeout: le24(data[1], data[2], data[3]),
        state: DfuState::spec_from_byte(data[4]),
        i_string: data[5],
    }
}

/// The six bytes by which a device reports `r`.
pub open spec fn status_response_bytes(r: DfuStatusResponse) -> Seq<u8> {
    seq![
        r.status.spec_to_byte(),
        (r.poll_timeout % 256) as u8,
        ((r.poll_timeout / 256) % 256) as u8,
        ((r.poll_timeout / 65536) % 256) as u8,
        r.state.spec_to_byte(),
        r.i_string,
    ]
}

/// Status and state bytes that name a known code.
pub open spec fn valid_status_bytes(data: Seq<u8>) -> bool {
    data.len() == 6 && data[0] <= 15 && data[4] <= 10
}

impl DfuStatusResponse {
    /// Decodes a GETSTATUS response: status, 24-bit little-endian poll
    /// timeout, state, string index. Fails on fewer than six bytes.
    pub fn from_bytes(data: &[u8]) -> (r: Result<Self, &'static str>)
        ensures
            r is Err <==> data@.len() < 6,
            r matches Ok(v) ==> v == spec_status_response(data@),
    {
        if data.len() < DFU_STATUS_LEN {
            return Err("Status response too short");
        }
        let timeout: u32 = data[1] as u32 + 256 * (data[2] as u32) + 65536 * (data[3] as u32);
        Ok(DfuStatusResponse {
            status: DfuStatus::from_byte(data[0]),
            poll_timeout: timeout,
            state: DfuState::from_byte(data[4]),
            i_string: data[5],
        })
    }
}

/// Decoding a response and encoding it again gives back the bytes, for every
/// six-byte buffer whose status and state bytes are known codes: the status
/// byte, the three timeout bytes and the state byte each land in their own
/// field and nowhere else.
pub proof fn status_response_round_trip(data: Seq<u8>)
    requires
        valid_status_bytes(data),
    ensures
        status_response_bytes(spec_status_response(data)) == data,
{
    let r = spec_status_response(data);
    let t = r.poll_timeout as int;
    assert(t == data[1] as int + 256 * (data[2] as int) + 65536 * (data[3] as int));
    assert(t % 256 == data[1] as int) by (nonlinear_arith)
        requires t == data[1] as int + 256 * (data[2] as int) + 65536 * (data[3] as int),
            0 <= data[1] < 256, 0 <= data[2] < 256, 0 <= data[3] < 256;
    assert((t / 256) % 256 == data[2] as int) by (nonlinear_arith)
        requires t == data[1] as int + 256 * (data[2] as int) + 65536 * (data[3] as int),
            0 <= data[1] < 256, 0 <= data[2] < 256, 0 <= data[3] < 256;
    assert((t / 65536) % 256 == data[3] as int) by (nonlinear_arith)
        requires t == data[1] as int + 256 * (data[2] as int) + 65536 * (data[3] as int),
            0 <= data[1] < 256, 0 <= data[2] < 256, 0 <= data[3] < 256;
    assert(status_response_bytes(r) =~= data);
}

/// Encoding a response whose timeout fits in 24 bits and decoding the bytes
/// gives back the response.
pub proof fn status_response_encode_decode(r: DfuStatusResponse)
    requires
        r.poll_timeout < 0x1000000,
    ensures
        spec_status_response(status_response_bytes(r)) == r,
{
    let t = r.poll_timeout as int;
    assert(t == t % 256 + 256 * ((t / 256) % 256) + 65536 * ((t / 65536) % 256)) by (nonlinear_arith)
        requires 0 <= t < 0x1000000;
    let b = status_response_bytes(r);
    assert(DfuStatus::spec_from_byte(r.status.spec_to_byte()) == r.status);
    assert(DfuState::spec_from_byte(r.state.spec_to_byte()) == r.state);
    assert(le24(b[1], b[2], b[3]) == r.poll_timeout);
}

/// A DFU functional descriptor.
#[derive(Debug, Clone, Copy, PartialEq, Eq, Structural)]
pub struct DfuFunctionalDescriptor {
    /// Bit 3 of the attributes.
    pub will_detach: bool,
    /// Bit 2 of the attributes.
    pub manifestation_tolerant: bool,
    /// Bit 1 of the attributes.
    pub can_upload: bool,
    /// Bit 0 of the attributes.
    pub can_download: bool,
    pub detach_timeout: u16,
    pub transfer_size: u16,
    /// Binary-coded version of the DFU specification.
    pub dfu_version: u16,
}

/// Length of a DFU functional descriptor.
pub const DFU_FUNCTIONAL_LEN: usize = 9;

/// The descriptor that the first nine bytes of `data` encode; bytes 0 and 1
/// are the generic length and type header.
pub open spec fn spec_functional_descriptor(data: Seq<u8>) -> DfuFunctionalDescriptor {
    DfuFunctionalDescriptor {
        will_detach: data[2] & 0x08 != 0,
        manifestation_tolerant: data[2] & 0x04 != 0,
        can_upload: data[2] & 0x02 != 0,
        can_download: data[2] & 0x01 != 0,
        detach_timeout: le16(data[3], data[4]),
        transfer_size: le16(data[5], data[6]),
        dfu_version: le16(data[7], data[8]),
    }
}

/// The capability flag that attribute bit `mask` sets.
pub open spec fn capability(d: DfuFunctionalDescriptor, mask: u8) -> bool {
    if mask == 0x08 {
        d.will_detach
    } else if mask == 0x04 {
        d.manifestation_tolerant
    } else if mask == 0x02 {
        d.can_upload
    } else {
        d.can_download
    }
}

pub open spec fn is_capability_mask(m: u8) -> bool {
    m == 0x01 || m == 0x02 || m == 0x04 || m == 0x08
}

/// `(a ^ m) & n` has the bit of `n` exactly when `a` has it, but for `n == m`.
proof fn lemma_toggle_bit(a: u8, m: u8, n: u8)
    requires
        is_capability_mask(m),
        is_capability_mask(n),
    ensures
        ((a ^ m) & n != 0) == (if m == n { a & n == 0 } else { a & n != 0 }),
{
    assert(((a ^ m) & n != 0) == (if m == n { a & n == 0 } else { a & n != 0 })) by (bit_vector)
        requires
            m == 1u8 || m == 2u8 || m == 4u8 || m == 8u8,
            n == 1u8 || n == 2u8 || n == 4u8 || n == 8u8,
    ;
}

impl DfuFunctionalDescriptor {
    /// Decodes a DFU functional descriptor: four capability bits of the
    /// attributes byte and three little-endian `u16` fields. Fails on fewer
    /// than nine bytes.
    pub fn from_bytes(data: &[u8]) -> (r: Result<Self, &'static str>)
        ensures
            r is Err <==> data@.len() < 9,
            r matches Ok(v) ==> v == spec_functional_descriptor(data@),
    {
        if data.len() < DFU_FUNCTIONAL_LEN {
            return Err("Functional descriptor too short");
        }
        let attributes = data[2];
        Ok(DfuFunctionalDescriptor {
            will_detach: attributes & 0x08 != 0,
            manifestation_tolerant: attributes & 0x04 != 0,
            can_upload: attributes & 0x02 != 0,
            can_download: attributes & 0x01 != 0,
            detach_timeout: data[3] as u16 + 256 * (data[4] as u16),
            transfer_size: data[5] as u16 + 256 * (data[6] as u16),
            dfu_version: data[7] as u16 + 256 * (data[8] as u16),
        })
    }

    /// The DFU version as "major.minor", each part in decimal.
    pub fn version_string(&self) -> (r: String)
        ensures
            r@ == decimal((self.dfu_version / 256) as nat) + "."@ + decimal((self.dfu_version % 256) as nat),
    {
        let major = fmt_decimal((self.dfu_version / 256) as u64);
        let head = concat(major.as_str(), ".");
        let minor = fmt_decimal((self.dfu_version % 256) as u64);
        concat(head.as_str(), minor.as_str())
    }
}

/// Toggling one capability bit of a functional descriptor flips that
/// capability alone: the other three and the three `u16` fields stay.
pub proof fn functional_descriptor_bit_toggle(data: Seq<u8>, mask: u8, other: u8)
    requires
        data.len() >= 9,
        is_capability_mask(mask),
        is_capability_mask(other),
    ensures
        ({
            let d = spec_functional_descriptor(data);
            let t = spec_functional_descriptor(data.update(2, data[2] ^ mask));
            &&& capability(t, mask) == !capability(d, mask)
            &&& other != mask ==> capability(t, other) == capability(d, other)
            &&& t.detach_timeout == d.detach_timeout
            &&& t.transfer_size == d.transfer_size
            &&& t.dfu_version == d.dfu_version
        }),
{
    let a = data[2];
    let u = data.update(2, a ^ mask);
    lemma_toggle_bit(a, mask, mask);
    lemma_toggle_bit(a, mask, other);
    lemma_toggle_bit(a, mask, 1);
    lemma_toggle_bit(a, mask, 2);
    lemma_toggle_bit(a, mask, 4);
    lemma_toggle_bit(a, mask, 8);
    assert(u[2] == a ^ mask);
    assert(u[3] == data[3] && u[4] == data[4] && u[5] == data[5]);
    assert(u[6] == data[6] && u[7] == data[7] && u[8] == data[8]);
}

/// The three `u16` fields of a functional descriptor are the little-endian
/// values of bytes 3-4, 5-6 and 7-8, each whole `u16` range reachable.
pub proof fn functional_descriptor_u16_fields(data: Seq<u8>)
    requires
        data.len() >= 9,
    ensures
        ({
            let d = spec_functional_descriptor(data);
            &&& d.detach_timeout as int == data[3] as int + 256 * data[4] as int
            &&& d.transfer_size as int == data[5] as int + 256 * data[6] as int
            &&& d.dfu_version as int == data[7] as int + 256 * data[8] as int
        }),
{
}

/// What a wait loop does after a GETSTATUS response.
#[derive(Debug, Clone, Copy, PartialEq, Eq, Structural)]
pub enum PollStep {
    /// Sleep for the device's poll timeout, then poll again.
    SleepPollTimeout,
    /// Sleep for a short fixed time, then poll again.
    SleepFixed,
    /// The wait is over.
    Ready,
    /// The device reported a status other than OK.
    StatusFailed,
    /// The device is in its error state.
    ErrorState,
    /// The device is in a state that the wait does not expect.
    Unexpected,
}

/// The decision after each block's GETSTATUS.
pub open spec fn spec_block_step(status: DfuStatus, state: DfuState) -> PollStep {
    if !(status is NoError) {
        PollStep::StatusFailed
    } else {
        match state {
            DfuState::DfuDnloadSync | DfuState::DfuDnBusy | DfuState::DfuManifestSync => PollStep::SleepPollTimeout,
            DfuState::DfuDnloadIdle | DfuState::DfuIdle | DfuState::DfuManifest => PollStep::Ready,
            DfuState::DfuError => PollStep::ErrorState,
            _ => PollStep::Unexpected,
        }
    }
}

/// The decision after each GETSTATUS of the manifestation phase.
pub open spec fn spec_manifest_step(status: DfuStatus, state: DfuState) -> PollStep {
    if !(status is NoError) {
        PollStep::StatusFailed
    } else {
        match state {
            DfuState::DfuManifest | DfuState::DfuManifestSync => PollStep::SleepPollTimeout,
            DfuState::DfuManifestWaitReset | DfuState::DfuIdle => PollStep::Ready,
            _ => PollStep::SleepFixed,
        }
    }
}

/// Wait-for-ready transition after a block was sent: keep polling while the
/// device is syncing or busy, stop on idle states, fail on a bad status, the
/// error state or any other state.
pub fn block_step(status: DfuStatus, state: DfuState) -> (r: PollStep)
    ensures
        r == spec_block_step(status, state),
{
    if !status.is_ok() {
        return PollStep::StatusFailed;
    }
    match state {
        DfuState::DfuDnloadSync | DfuState::DfuDnBusy | DfuState::DfuManifestSync => PollStep::SleepPollTimeout,
        DfuState::DfuDnloadIdle | DfuState::DfuIdle | DfuState::DfuManifest => PollStep::Ready,
        DfuState::DfuError => PollStep::ErrorState,
        _ => PollStep::Unexpected,
    }
}

/// Manifestation transition: sleep the poll timeout while manifesting, stop
/// on wait-reset or idle, fail on a bad status, and otherwise sleep briefly.
pub fn manifest_step(status: DfuStatus, state: DfuState) -> (r: PollStep)
    ensures
        r == spec_manifest_step(status, state),
{
    if !status.is_ok() {
        return PollStep::StatusFailed;
    }
    match state {
        DfuState::DfuManifest | DfuState::DfuManifestSync => PollStep::SleepPollTimeout,
        DfuState::DfuManifestWaitReset | DfuState::DfuIdle => PollStep::Ready,
        _ => PollStep::SleepFixed,
    }
}

/// The message of an error for a reported status other than OK.
pub open spec fn status_error_text(status: DfuStatus) -> Seq<char> {
    "DFU error: "@ + status.spec_name()
}

/// A GETSTATUS response whose status is OK, or the error naming its status.
pub fn checked_status(resp: DfuStatusResponse) -> (r: Result<DfuStatusResponse, UsbError>)
    ensures
        r is Ok <==> resp.status is NoError,
        r matches Ok(s) ==> s == resp,
        r matches Err(e) ==> e matches UsbError::Unknown(m) && m@ == status_error_text(resp.status),
{
    if resp.status.is_ok() {
        Ok(resp)
    } else {
        Err(UsbError::Unknown(concat("DFU error: ", resp.status.name())))
    }
}

/// Milliseconds slept in the manifestation phase on a transient state.
pub const MANIFEST_FALLBACK_SLEEP_MS: u64 = 100;

/// Most GETSTATUS polls of one wait loop.
pub const MAX_STATUS_POLLS: u64 = 0xFFFF_FFFF_FFFF_FFFF;

/// Default timeout of a DFU control request, in milliseconds.
pub const DFU_DEFAULT_TIMEOUT_MS: u64 = 10_000;

/// The states in which a block's wait ends.
pub open spec fn block_ready_state(s: DfuState) -> bool {
    s is DfuDnloadIdle || s is DfuIdle || s is DfuManifest
}

/// `c` is a DNLOAD request on interface `iface`.
pub open spec fn is_dnload(c: UsbCall, iface: u16) -> bool {
    c matches UsbCall::ControlWrite { request_type, request, index, .. } && request_type == DFU_REQUEST_OUT
        && request == DFU_DNLOAD && index == iface
}

/// Block number and payload of a DNLOAD request.
pub open spec fn dnload_payload(c: UsbCall) -> (u16, Seq<u8>) {
    match c {
        UsbCall::ControlWrite { value, data, .. } => (value, data),
        _ => (0, Seq::empty()),
    }
}

/// The DNLOAD requests among `calls`, in order, as (block number, payload).
pub open spec fn dnloads(calls: Seq<UsbCall>, iface: u16) -> Seq<(u16, Seq<u8>)>
    decreases calls.len(),
{
    if calls.len() == 0 {
        seq![]
    } else {
        let p = dnloads(calls.drop_last(), iface);
        if is_dnload(calls.last(), iface) { p.push(dnload_payload(calls.last())) } else { p }
    }
}

/// No request of `calls` is a DNLOAD on `iface`.
pub open spec fn no_dnload(calls: Seq<UsbCall>, iface: u16) -> bool {
    forall|i: int| 0 <= i < calls.len() ==> !is_dnload(#[trigger] calls[i], iface)
}

/// The DNLOAD requests that send `fw` from `offset` on in blocks of `size`
/// bytes numbered from `num` (modulo 2^16), then the empty block that ends
/// the transfer.
pub open spec fn firmware_blocks(fw: Seq<u8>, offset: nat, size: nat, num: nat) -> Seq<(u16, Seq<u8>)>
    decreases fw.len() - offset,
{
    if size == 0 || offset >= fw.len() {
        seq![((num % 0x10000) as u16, Seq::empty())]
    } else {
        let end = offset + block_len(fw.len(), offset, size);
        seq![((num % 0x10000) as u16, fw.subrange(offset as int, end as int))] + firmware_blocks(fw, end, size, num + 1)
    }
}

proof fn lemma_dnloads_push(p: Seq<UsbCall>, c: UsbCall, iface: u16)
    ensures
        dnloads(p.push(c), iface) == if is_dnload(c, iface) {
            dnloads(p, iface).push(dnload_payload(c))
        } else {
            dnloads(p, iface)
        },
{
    assert(p.push(c).drop_last() =~= p);
}

/// Adding a request that is not a DNLOAD keeps `no_dnload` of what was added.
proof fn lemma_push_no_dnload(h0: Seq<UsbCall>, before: Seq<UsbCall>, c: UsbCall, iface: u16)
    requires
        extends(h0, before),
        no_dnload(added(h0, before), iface),
        !is_dnload(c, iface),
    ensures
        extends(h0, before.push(c)),
        no_dnload(added(h0, before.push(c)), iface),
{
    lemma_added_push(h0, before, c);
    let p = added(h0, before);
    assert forall|i: int| 0 <= i < p.push(c).len() implies !is_dnload(#[trigger] p.push(c)[i], iface) by {
        if i < p.len() {
            assert(p.push(c)[i] == p[i]);
        }
    }
}

/// Requests without a DNLOAD leave the DNLOADs of a history unchanged.
proof fn lemma_no_dnload_keeps(h0: Seq<UsbCall>, h1: Seq<UsbCall>, h2: Seq<UsbCall>, iface: u16)
    requires
        extends(h0, h1),
        extends(h1, h2),
        no_dnload(added(h1, h2), iface),
    ensures
        extends(h0, h2),
        dnloads(added(h0, h2), iface) == dnloads(added(h0, h1), iface),
    decreases h2.len(),
{
    lemma_extends_trans(h0, h1, h2);
    if h2.len() == h1.len() {
        assert(h2 =~= h1);
    } else {
        let h = h2.drop_last();
        assert(h.subrange(0, h1.len() as int) =~= h2.subrange(0, h1.len() as int));
        assert forall|i: int| 0 <= i < added(h1, h).len() implies !is_dnload(#[trigger] added(h1, h)[i], iface) by {
            assert(added(h1, h)[i] == added(h1, h2)[i]);
        }
        lemma_no_dnload_keeps(h0, h1, h, iface);
        assert(h2 == h.push(h2.last()));
        lemma_added_push(h0, h, h2.last());
        assert(added(h1, h2)[added(h1, h2).len() - 1] == h2.last());
        lemma_dnloads_push(added(h0, h), h2.last(), iface);
    }
}

/// `c` is an UPLOAD request on interface `iface` into `size` bytes.
pub open spec fn is_upload(c: UsbCall, iface: u16, size: usize) -> bool {
    c matches UsbCall::ControlRead { request_type, request, index, len, .. } && request_type == DFU_REQUEST_IN
        && request == DFU_UPLOAD && index == iface && len == size
}

/// The bytes a request received: the first `n` of its buffer when it
/// answered `Ok(n)`, none otherwise.
pub open spec fn upload_bytes(c: UsbCall) -> Seq<u8> {
    match call_result(c) {
        Ok(n) => call_data(c).subrange(0, n as int),
        Err(_) => Seq::empty(),
    }
}

/// What the UPLOAD requests among `calls` received, one after the other.
pub open spec fn uploaded(calls: Seq<UsbCall>, iface: u16, size: usize) -> Seq<u8>
    decreases calls.len(),
{
    if calls.len() == 0 {
        Seq::empty()
    } else {
        let p = uploaded(calls.drop_last(), iface, size);
        if is_upload(calls.last(), iface, size) { p + upload_bytes(calls.last()) } else { p }
    }
}

/// `c` is an UPLOAD that brought at least one byte.
pub open spec fn brought_bytes(c: UsbCall, iface: u16, size: usize) -> bool {
    is_upload(c, iface, size) && (call_result(c) matches Ok(n) && n > 0)
}

/// The progress reports of an upload whose requests are `calls`: after each
/// UPLOAD that brought bytes, the bytes received so far against `max_size`.
pub open spec fn upload_reports(calls: Seq<UsbCall>, iface: u16, size: usize, max_size: usize) -> Seq<(usize, usize)>
    decreases calls.len(),
{
    if calls.len() == 0 {
        Seq::empty()
    } else {
        let p = upload_reports(calls.drop_last(), iface, size, max_size);
        if brought_bytes(calls.last(), iface, size) {
            p.push((uploaded(calls, iface, size).len() as usize, max_size))
        } else {
            p
        }
    }
}

/// No request of `calls` is such an UPLOAD.
pub open spec fn no_upload(calls: Seq<UsbCall>, iface: u16, size: usize) -> bool {
    forall|i: int| 0 <= i < calls.len() ==> !is_upload(#[trigger] calls[i], iface, size)
}

proof fn lemma_uploaded_push(p: Seq<UsbCall>, c: UsbCall, iface: u16, size: usize)
    ensures
        forall|max_size: usize| #[trigger] upload_reports(p.push(c), iface, size, max_size) == if brought_bytes(c, iface, size) {
            upload_reports(p, iface, size, max_size).push((uploaded(p.push(c), iface, size).len() as usize, max_size))
        } else {
            upload_reports(p, iface, size, max_size)
        },
        uploaded(p.push(c), iface, size) == if is_upload(c, iface, size) {
            uploaded(p, iface, size) + upload_bytes(c)
        } else {
            uploaded(p, iface, size)
        },
{
    assert(p.push(c).drop_last() =~= p);
}

proof fn lemma_push_no_upload(h0: Seq<UsbCall>, before: Seq<UsbCall>, c: UsbCall, iface: u16, size: usize)
    requires
        extends(h0, before),
        no_upload(added(h0, before), iface, size),
        !is_upload(c, iface, size),
    ensures
        extends(h0, before.push(c)),
        no_upload(added(h0, before.push(c)), iface, size),
{
    lemma_added_push(h0, before, c);
    let p = added(h0, before);
    assert forall|i: int| 0 <= i < p.push(c).len() implies !is_upload(#[trigger] p.push(c)[i], iface, size) by {
        if i < p.len() {
            assert(p.push(c)[i] == p[i]);
        }
    }
}

/// Requests without an UPLOAD leave what UPLOADs received unchanged.
proof fn lemma_no_upload_keeps(h0: Seq<UsbCall>, h1: Seq<UsbCall>, h2: Seq<UsbCall>, iface: u16, size: usize)
    requires
        extends(h0, h1),
        extends(h1, h2),
        no_upload(added(h1, h2), iface, size),
    ensures
        extends(h0, h2),
        uploaded(added(h0, h2), iface, size) == uploaded(added(h0, h1), iface, size),
        forall|max_size: usize| #[trigger] upload_reports(added(h0, h2), iface, size, max_size) == upload_reports(
            added(h0, h1),
            iface,
            size,
            max_size,
        ),
    decreases h2.len(),
{
    lemma_extends_trans(h0, h1, h2);
    if h2.len() == h1.len() {
        assert(h2 =~= h1);
    } else {
        let h = h2.drop_last();
        assert(h.subrange(0, h1.len() as int) =~= h2.subrange(0, h1.len() as int));
        assert forall|i: int| 0 <= i < added(h1, h).len() implies !is_upload(#[trigger] added(h1, h)[i], iface, size) by {
            assert(added(h1, h)[i] == added(h1, h2)[i]);
        }
        lemma_no_upload_keeps(h0, h1, h, iface, size);
        assert(h2 == h.push(h2.last()));
        lemma_added_push(h0, h, h2.last());
        assert(added(h1, h2)[added(h1, h2).len() - 1] == h2.last());
        lemma_uploaded_push(added(h0, h), h2.last(), iface, size);
    }
}

/// Whether an upload goes on after a block of `n` bytes, `received` bytes
/// having arrived in all: the block was not empty, the maximum is not
/// reached, and the block was full.
pub fn upload_continues(received: usize, n: usize, max_size: usize, size: usize) -> (r: bool)
    ensures
        r == (n > 0 && received < max_size && n >= size),
{
    n > 0 && received < max_size && n >= size
}

/// The (done, total) pairs that reporting each of `ends` against `total`
/// gives.
pub open spec fn reports_of(ends: Seq<nat>, total: usize) -> Seq<(usize, usize)> {
    Seq::new(ends.len(), |i: int| (ends[i] as usize, total))
}

/// The reports handed to a progress sink, oldest first.
pub type ReportHistory = Seq<(usize, usize)>;

/// Where a transfer reports its progress: bytes done so far out of a total.
pub trait ProgressSink {
    /// The reports received so far. A specification-only member: nothing
    /// calls it at run time, so an implementation outside verified code may
    /// leave its body unreachable.
    spec fn reports(&self) -> ReportHistory;

    fn report(&mut self, done: usize, total: usize)
        ensures
            final(self).reports() == old(self).reports().push((done, total)),
    ;
}

/// A progress sink that keeps every report.
pub struct ProgressLog {
    pub entries: Vec<(usize, usize)>,
}

impl ProgressLog {
    pub fn new() -> (r: Self)
        ensures
            r.entries@.len() == 0,
    {
        ProgressLog { entries: Vec::new() }
    }
}

impl ProgressSink for ProgressLog {
    open spec fn reports(&self) -> ReportHistory {
        self.entries@
    }

    fn report(&mut self, done: usize, total: usize) {
        self.entries.push((done, total));
    }
}

/// How a DFU exchange ends.
pub enum DfuEnd {
    /// The download manifested, or the upload ended.
    Success,
    /// A request failed with this error.
    Failed(UsbError),
    /// GETSTATUS reported a status other than OK.
    BadStatus(DfuStatus),
    /// The device entered its error state while a block was pending.
    ErrorState,
    /// The device reported a state that the block wait does not expect.
    Unexpected(DfuState),
    /// A wait used up its polls.
    PollLimit,
}

/// Where a DFU download or upload stands after the requests made so far:
/// which request comes next, or how the exchange ended. `Invalid` means the
/// requests do not follow the protocol.
pub enum DfuStep {
    /// ABORT comes next.
    Abort,
    /// The GETSTATUS after ABORT comes next.
    IdleStatus,
    /// The DNLOAD of the block at `offset`, numbered `num`, comes next (the
    /// empty block once `offset` reaches the image length).
    Block { offset: nat, num: nat },
    /// A GETSTATUS of the wait after a block comes next; `left` polls remain.
    BlockStatus { offset: nat, num: nat, left: nat },
    /// The pause of `ms` after a busy reply comes next.
    BlockPause { offset: nat, num: nat, left: nat, ms: u64 },
    /// A GETSTATUS of the manifestation wait comes next.
    Manifest { left: nat },
    /// The pause of `ms` of the manifestation wait comes next.
    ManifestPause { left: nat, ms: u64 },
    /// The UPLOAD of block `num` comes next; `received` arrived so far.
    Upload { num: nat, received: Seq<u8> },
    /// The GETSTATUS after a full upload block comes next.
    UploadStatus { num: nat, received: Seq<u8> },
    Done(DfuEnd),
    Invalid,
}

/// What a DFU exchange works with: the image (for a download), the block
/// size, the interface, the request timeout, whether it is an upload, and
/// the most bytes an upload asks for.
pub struct DfuContext {
    pub fw: Seq<u8>,
    pub size: nat,
    pub iface: u16,
    pub timeout: Duration,
    pub upload: bool,
    pub max_size: nat,
}

/// The first step of the transfer proper, once the device is idle.
pub open spec fn transfer_start(x: DfuContext) -> DfuStep {
    if x.upload { DfuStep::Upload { num: 0, received: Seq::empty() } } else { DfuStep::Block { offset: 0, num: 0 } }
}

/// The first step of an exchange that starts in cached state `state`.
pub open spec fn exchange_start(state: DfuState, x: DfuContext) -> DfuStep {
    if state != DfuState::DfuIdle { DfuStep::Abort } else { transfer_start(x) }
}

/// `c` is a GETSTATUS of the exchange.
pub open spec fn is_getstatus(c: UsbCall, x: DfuContext) -> bool {
    is_control_in(c, DFU_REQUEST_IN, DFU_GETSTATUS, 0, x.iface, DFU_STATUS_LEN, x.timeout)
}

/// The next step after GETSTATUS `c`, when its reply is OK: `next(reply)`.
pub open spec fn status_then(c: UsbCall, x: DfuContext, next: DfuStep) -> DfuStep {
    if !is_getstatus(c, x) {
        DfuStep::Invalid
    } else {
        match call_result(c) {
            Err(e) => DfuStep::Done(DfuEnd::Failed(e)),
            Ok(_) => if !(spec_status_response(call_data(c)).status is NoError) {
                DfuStep::Done(DfuEnd::BadStatus(spec_status_response(call_data(c)).status))
            } else {
                next
            },
        }
    }
}

/// The step after the one request `c`, from step `st`.
pub open spec fn dfu_step(st: DfuStep, c: UsbCall, x: DfuContext) -> DfuStep {
    match st {
        DfuStep::Abort => if is_control_out(c, DFU_REQUEST_OUT, DFU_ABORT, 0, x.iface, x.timeout) {
            match call_result(c) {
                Ok(_) => DfuStep::IdleStatus,
                Err(e) => DfuStep::Done(DfuEnd::Failed(e)),
            }
        } else {
            DfuStep::Invalid
        },
        DfuStep::IdleStatus => status_then(c, x, transfer_start(x)),
        DfuStep::Block { offset, num } => {
            let end = if offset < x.fw.len() { offset + block_len(x.fw.len(), offset, x.size) } else { offset };
            let data = if offset < x.fw.len() { x.fw.subrange(offset as int, end as int) } else { Seq::empty() };
            if c == (UsbCall::ControlWrite {
                request_type: DFU_REQUEST_OUT,
                request: DFU_DNLOAD,
                value: (num % 0x10000) as u16,
                index: x.iface,
                data,
                timeout: x.timeout,
                result: call_result(c),
            }) {
                match call_result(c) {
                    Err(e) => DfuStep::Done(DfuEnd::Failed(e)),
                    Ok(_) => if offset < x.fw.len() {
                        DfuStep::BlockStatus { offset: end, num: num + 1, left: MAX_STATUS_POLLS as nat }
                    } else {
                        DfuStep::Manifest { left: MAX_STATUS_POLLS as nat }
                    },
                }
            } else {
                DfuStep::Invalid
            }
        },
        DfuStep::BlockStatus { offset, num, left } => {
            let s = spec_status_response(call_data(c));
            status_then(
                c,
                x,
                match spec_block_step(s.status, s.state) {
                    PollStep::Ready => DfuStep::Block { offset, num },
                    PollStep::ErrorState => DfuStep::Done(DfuEnd::ErrorState),
                    PollStep::Unexpected => DfuStep::Done(DfuEnd::Unexpected(s.state)),
                    _ => DfuStep::BlockPause { offset, num, left: (left - 1) as nat, ms: s.poll_timeout as u64 },
                },
            )
        },
        DfuStep::BlockPause { offset, num, left, ms } => if c == (UsbCall::Pause { ms }) {
            if left == 0 { DfuStep::Done(DfuEnd::PollLimit) } else { DfuStep::BlockStatus { offset, num, left } }
        } else {
            DfuStep::Invalid
        },
        DfuStep::Manifest { left } => {
            let s = spec_status_response(call_data(c));
            status_then(
                c,
                x,
                match spec_manifest_step(s.status, s.state) {
                    PollStep::Ready => DfuStep::Done(DfuEnd::Success),
                    PollStep::SleepPollTimeout => DfuStep::ManifestPause { left: (left - 1) as nat, ms: s.poll_timeout as u64 },
                    _ => DfuStep::ManifestPause { left: (left - 1) as nat, ms: MANIFEST_FALLBACK_SLEEP_MS },
                },
            )
        },
        DfuStep::ManifestPause { left, ms } => if c == (UsbCall::Pause { ms }) {
            if left == 0 { DfuStep::Done(DfuEnd::PollLimit) } else { DfuStep::Manifest { left } }
        } else {
            DfuStep::Invalid
        },
        DfuStep::Upload { num, received } => if is_control_in(
            c,
            DFU_REQUEST_IN,
            DFU_UPLOAD,
            (num % 0x10000) as u16,
            x.iface,
            x.size as usize,
            x.timeout,
        ) {
            match call_result(c) {
                Err(e) => DfuStep::Done(DfuEnd::Failed(e)),
                Ok(n) => {
                    let got = received + call_data(c).subrange(0, n as int);
                    if n > 0 && n >= x.size && got.len() < x.max_size {
                        DfuStep::UploadStatus { num: num + 1, received: got }
                    } else {
                        DfuStep::Done(DfuEnd::Success)
                    }
                },
            }
        } else {
            DfuStep::Invalid
        },
        DfuStep::UploadStatus { num, received } => status_then(c, x, DfuStep::Upload { num, received }),
        _ => DfuStep::Invalid,
    }
}

/// The step reached from `st` after the requests `calls`, in order.
pub open spec fn dfu_run(st: DfuStep, calls: Seq<UsbCall>, x: DfuContext) -> DfuStep
    decreases calls.len(),
{
    if calls.len() == 0 { st } else { dfu_step(dfu_run(st, calls.drop_last(), x), calls.last(), x) }
}

/// The error that a failed exchange ending in `end` returns.
pub open spec fn err_matches(e: UsbError, end: DfuEnd) -> bool {
    match end {
        DfuEnd::Success => false,
        DfuEnd::Failed(x) => e == x,
        DfuEnd::BadStatus(s) => e matches UsbError::Unknown(m) && m@ == status_error_text(s),
        DfuEnd::ErrorState => e matches UsbError::Unknown(m) && m@ == "DFU error state"@,
        DfuEnd::Unexpected(st) => e matches UsbError::Unknown(m) && m@ == "Unexpected state: "@ + st.spec_name(),
        DfuEnd::PollLimit => e matches UsbError::Unknown(m) && m@ == "DFU status poll limit reached"@,
    }
}

/// `st` is the end of an exchange, and `failure` (the error returned, if
/// any) is what that end gives: none exactly on success.
pub open spec fn ends_as(st: DfuStep, failure: Option<UsbError>) -> bool {
    st matches DfuStep::Done(end) && match failure {
        None => end is Success,
        Some(e) => err_matches(e, end),
    }
}

/// The error of a result, if it is one.
pub open spec fn failure_of<T>(r: Result<T, UsbError>) -> Option<UsbError> {
    match r {
        Ok(_) => None,
        Err(e) => Some(e),
    }
}

proof fn lemma_run_push(st: DfuStep, calls: Seq<UsbCall>, c: UsbCall, x: DfuContext)
    ensures
        dfu_run(st, calls.push(c), x) == dfu_step(dfu_run(st, calls, x), c, x),
{
    assert(calls.push(c).drop_last() =~= calls);
}

proof fn lemma_run_concat(st: DfuStep, a: Seq<UsbCall>, b: Seq<UsbCall>, x: DfuContext)
    ensures
        dfu_run(st, a + b, x) == dfu_run(dfu_run(st, a, x), b, x),
    decreases b.len(),
{
    if b.len() == 0 {
        assert(a + b =~= a);
    } else {
        lemma_run_concat(st, a, b.drop_last(), x);
        assert((a + b).drop_last() =~= a + b.drop_last());
    }
}

proof fn lemma_run_empty(st: DfuStep, x: DfuContext)
    ensures
        dfu_run(st, Seq::empty(), x) == st,
{
}

/// A DFU session on one interface of an opened device.
pub struct DfuClient<'a, H: DeviceHandle> {
    handle: &'a mut H,
    interface: u8,
    transfer_size: u16,
    timeout: Duration,
    state: DfuState,
}

impl<'a, H: DeviceHandle> DfuClient<'a, H> {
    /// DFU interface class.
    pub const CLASS: u8 = 0xFE;
    /// DFU interface subclass.
    pub const SUBCLASS: u8 = 0x01;
    /// Runtime-mode protocol.
    pub const PROTOCOL_RUNTIME: u8 = 0x01;
    /// DFU-mode protocol.
    pub const PROTOCOL_DFU: u8 = 0x02;

    /// The cached device state.
    pub closed spec fn spec_state(&self) -> DfuState {
        self.state
    }

    pub closed spec fn spec_interface(&self) -> u8 {
        self.interface
    }

    pub closed spec fn spec_transfer_size(&self) -> u16 {
        self.transfer_size
    }

    pub closed spec fn spec_timeout(&self) -> Duration {
        self.timeout
    }

    /// The requests made through the device handle so far.
    pub closed spec fn calls(&self) -> Seq<UsbCall> {
        self.handle.calls()
    }

    /// The context of a download of `fw` by this client.
    pub open spec fn download_context(&self, fw: Seq<u8>) -> DfuContext {
        DfuContext {
            fw,
            size: self.spec_transfer_size() as nat,
            iface: self.spec_interface() as u16,
            timeout: self.spec_timeout(),
            upload: false,
            max_size: 0,
        }
    }

    /// The context of an upload of at most `max_size` bytes by this client.
    pub open spec fn upload_context(&self, max_size: nat) -> DfuContext {
        DfuContext {
            fw: Seq::empty(),
            size: self.spec_transfer_size() as nat,
            iface: self.spec_interface() as u16,
            timeout: self.spec_timeout(),
            upload: true,
            max_size,
        }
    }

    /// Interface, block size and timeout of `self` and `other` agree.
    pub open spec fn same_setup(&self, other: &Self) -> bool {
        &&& self.spec_interface() == other.spec_interface()
        &&& self.spec_transfer_size() == other.spec_transfer_size()
        &&& self.spec_timeout() == other.spec_timeout()
    }

    /// A session whose cached state is idle.
    pub fn new(handle: &'a mut H, interface: u8, transfer_size: u16) -> (r: Self)
        ensures
            r.spec_interface() == interface,
            r.spec_transfer_size() == transfer_size,
            r.spec_state() == DfuState::DfuIdle,
            r.calls() == old(handle).calls(),
    {
        DfuClient { handle, interface, transfer_size, timeout: millis(DFU_DEFAULT_TIMEOUT_MS), state: DfuState::DfuIdle }
    }

    pub fn with_timeout(self, timeout: Duration) -> (r: Self)
        ensures
            r.spec_timeout() == timeout,
            r.spec_interface() == self.spec_interface(),
            r.spec_transfer_size() == self.spec_transfer_size(),
            r.spec_state() == self.spec_state(),
            r.calls() == self.calls(),
    {
        DfuClient { timeout, ..self }
    }

    /// The cached device state.
    pub fn state(&self) -> (r: DfuState)
        ensures
            r == self.spec_state(),
    {
        self.state
    }

    /// Issues GETSTATUS (one 6-byte class read on the interface) and caches
    /// the state it reports. A status other than OK is returned as an error
    /// naming it; a failed request returns its error.
    pub fn get_status(&mut self) -> (r: Result<DfuStatusResponse, UsbError>)
        ensures
            final(self).same_setup(old(self)),
            r matches Ok(s) ==> final(self).spec_state() == s.state && s.status is NoError,
            one_request(old(self).calls(), final(self).calls()),
            is_control_in(
                final(self).calls().last(),
                DFU_REQUEST_IN,
                DFU_GETSTATUS,
                0,
                old(self).spec_interface() as u16,
                DFU_STATUS_LEN,
                old(self).spec_timeout(),
            ),
            ({
                let c = final(self).calls().last();
                match call_result(c) {
                    Err(e) => r == Err::<DfuStatusResponse, UsbError>(e) && final(self).spec_state() == old(self).spec_state(),
                    Ok(_) => {
                        let s = spec_status_response(call_data(c));
                        &&& final(self).spec_state() == s.state
                        &&& s.status is NoError ==> r == Ok::<DfuStatusResponse, UsbError>(s)
                        &&& !(s.status is NoError) ==> (r matches Err(UsbError::Unknown(m)) && m@ == status_error_text(s.status))
                    },
                }
            }),
    {
        let mut buf: Vec<u8> = vec![0u8; DFU_STATUS_LEN];
        let res = self.handle.control_read(
            DFU_REQUEST_IN,
            DFU_GETSTATUS,
            0,
            self.interface as u16,
            buf.as_mut_slice(),
            self.timeout,
        );
        if let Err(e) = res {
            return Err(e);
        }
        match DfuStatusResponse::from_bytes(buf.as_slice()) {
            Ok(status) => {
                self.state = status.state;
                checked_status(status)
            },
            Err(msg) => Err(UsbError::Parse(msg.to_string())),
        }
    }

    /// Issues GETSTATE (one 1-byte class read on the interface) and caches
    /// the state the byte names; a failed request returns its error.
    pub fn get_state(&mut self) -> (r: Result<DfuState, UsbError>)
        ensures
            final(self).same_setup(old(self)),
            one_request(old(self).calls(), final(self).calls()),
            is_control_in(
                final(self).calls().last(),
                DFU_REQUEST_IN,
                DFU_GETSTATE,
                0,
                old(self).spec_interface() as u16,
                1,
                old(self).spec_timeout(),
            ),
            ({
                let c = final(self).calls().last();
                match call_result(c) {
                    Err(e) => r == Err::<DfuState, UsbError>(e) && final(self).spec_state() == old(self).spec_state(),
                    Ok(_) => r == Ok::<DfuState, UsbError>(DfuState::spec_from_byte(call_data(c)[0]))
                        && final(self).spec_state() == DfuState::spec_from_byte(call_data(c)[0]),
                }
            }),
    {
        let mut buf: Vec<u8> = vec![0u8; 1];
        let res = self.handle.control_read(
            DFU_REQUEST_IN,
            DFU_GETSTATE,
            0,
            self.interface as u16,
            buf.as_mut_slice(),
            self.timeout,
        );
        if let Err(e) = res {
            return Err(e);
        }
        self.state = DfuState::from_byte(buf[0]);
        Ok(self.state)
    }

    /// Issues CLRSTATUS; the cached state stays.
    pub fn clear_status(&mut self) -> (r: Result<(), UsbError>)
        ensures
            final(self).same_setup(old(self)),
            final(self).spec_state() == old(self).spec_state(),
            one_request(old(self).calls(), final(self).calls()),
            is_control_out(final(self).calls().last(), DFU_REQUEST_OUT, DFU_CLRSTATUS, 0, old(self).spec_interface() as u16, old(self).spec_timeout()),
            mirrors(r, call_result(final(self).calls().last())),
    {
        let empty: Vec<u8> = Vec::new();
        match self.handle.control_write(DFU_REQUEST_OUT, DFU_CLRSTATUS, 0, self.interface as u16, empty.as_slice(), self.timeout) {
            Ok(_) => Ok(()),
            Err(e) => Err(e),
        }
    }

    /// Issues ABORT; when it succeeds the cached state becomes idle.
    pub fn abort(&mut self) -> (r: Result<(), UsbError>)
        ensures
            final(self).same_setup(old(self)),
            r is Ok ==> final(self).spec_state() == DfuState::DfuIdle,
            r is Err ==> final(self).spec_state() == old(self).spec_state(),
            one_request(old(self).calls(), final(self).calls()),
            is_control_out(final(self).calls().last(), DFU_REQUEST_OUT, DFU_ABORT, 0, old(self).spec_interface() as u16, old(self).spec_timeout()),
            mirrors(r, call_result(final(self).calls().last())),
    {
        let empty: Vec<u8> = Vec::new();
        match self.handle.control_write(DFU_REQUEST_OUT, DFU_ABORT, 0, self.interface as u16, empty.as_slice(), self.timeout) {
            Ok(_) => {
                self.state = DfuState::DfuIdle;
                Ok(())
            },
            Err(e) => Err(e),
        }
    }

    /// Issues DETACH with `timeout_ms` as its value, for a device in
    /// runtime mode; the cached state stays.
    pub fn detach(&mut self, timeout_ms: u16) -> (r: Result<(), UsbError>)
        ensures
            final(self).same_setup(old(self)),
            final(self).spec_state() == old(self).spec_state(),
            one_request(old(self).calls(), final(self).calls()),
            is_control_out(final(self).calls().last(), DFU_REQUEST_OUT, DFU_DETACH, timeout_ms, old(self).spec_interface() as u16, old(self).spec_timeout()),
            mirrors(r, call_result(final(self).calls().last())),
    {
        let empty: Vec<u8> = Vec::new();
        match self.handle.control_write(DFU_REQUEST_OUT, DFU_DETACH, timeout_ms, self.interface as u16, empty.as_slice(), self.timeout) {
            Ok(_) => Ok(()),
            Err(e) => Err(e),
        }
    }

    /// Issues DNLOAD of block `block_num` carrying `data`.
    pub fn download_block(&mut self, block_num: u16, data: &[u8]) -> (r: Result<(), UsbError>)
        ensures
            final(self).same_setup(old(self)),
            final(self).spec_state() == old(self).spec_state(),
            one_request(old(self).calls(), final(self).calls()),
            final(self).calls().last() == (UsbCall::ControlWrite {
                request_type: DFU_REQUEST_OUT,
                request: DFU_DNLOAD,
                value: block_num,
                index: old(self).spec_interface() as u16,
                data: data@,
                timeout: old(self).spec_timeout(),
                result: call_result(final(self).calls().last()),
            }),
            mirrors(r, call_result(final(self).calls().last())),
    {
        match self.handle.control_write(DFU_REQUEST_OUT, DFU_DNLOAD, block_num, self.interface as u16, data, self.timeout) {
            Ok(_) => Ok(()),
            Err(e) => Err(e),
        }
    }

    /// Issues UPLOAD of block `block_num` into `buf`; returns the bytes
    /// received.
    pub fn upload_block(&mut self, block_num: u16, buf: &mut [u8]) -> (r: Result<usize, UsbError>)
        ensures
            final(self).same_setup(old(self)),
            final(self).spec_state() == old(self).spec_state(),
            final(buf)@.len() == old(buf)@.len(),
            r matches Ok(n) ==> n <= old(buf)@.len(),
            one_request(old(self).calls(), final(self).calls()),
            is_control_in(
                final(self).calls().last(),
                DFU_REQUEST_IN,
                DFU_UPLOAD,
                block_num,
                old(self).spec_interface() as u16,
                old(buf)@.len() as usize,
                old(self).spec_timeout(),
            ),
            r == call_result(final(self).calls().last()),
            final(buf)@ == call_data(final(self).calls().last()),
    {
        self.handle.control_read(DFU_REQUEST_IN, DFU_UPLOAD, block_num, self.interface as u16, buf, self.timeout)
    }

    /// The error for a GETSTATUS that reported a status other than OK.
    /// (`get_status` already returns such a status as an error; the wait
    /// loops still follow every step the transition functions can give.)
    fn status_error(prefix: &str, status: DfuStatus) -> (r: UsbError) {
        UsbError::Unknown(concat(prefix, status.name()))
    }

    /// Polls GETSTATUS after a block until the device is ready again: the
    /// requests follow the block wait of the exchange from `offset` / `num`.
    fn wait_for_ready(&mut self, Ghost(x): Ghost<DfuContext>, Ghost(offset): Ghost<nat>, Ghost(num): Ghost<nat>) -> (r: Result<(), UsbError>)
        requires
            x.iface == old(self).spec_interface() as u16,
            x.timeout == old(self).spec_timeout(),
        ensures
            final(self).same_setup(old(self)),
            extends(old(self).calls(), final(self).calls()),
            no_dnload(added(old(self).calls(), final(self).calls()), old(self).spec_interface() as u16),
            r is Ok ==> block_ready_state(final(self).spec_state()),
            ({
                let run = dfu_run(
                    DfuStep::BlockStatus { offset, num, left: MAX_STATUS_POLLS as nat },
                    added(old(self).calls(), final(self).calls()),
                    x,
                );
                &&& r is Ok ==> run == (DfuStep::Block { offset, num })
                &&& r is Err ==> ends_as(run, failure_of(r))
            }),
    {
        let ghost h0 = self.calls();
        let ghost iface = self.interface as u16;
        let ghost s0 = DfuStep::BlockStatus { offset, num, left: MAX_STATUS_POLLS as nat };
        proof {
            lemma_extends_refl(h0);
        }
        let mut polls_left: u64 = MAX_STATUS_POLLS;
        while polls_left > 0
            invariant
                self.same_setup(old(self)),
                h0 == old(self).calls(),
                iface == old(self).spec_interface() as u16,
                x.iface == iface,
                x.timeout == self.spec_timeout(),
                s0 == (DfuStep::BlockStatus { offset, num, left: MAX_STATUS_POLLS as nat }),
                extends(h0, self.calls()),
                no_dnload(added(h0, self.calls()), iface),
                polls_left > 0 ==> dfu_run(s0, added(h0, self.calls()), x) == (DfuStep::BlockStatus {
                    offset,
                    num,
                    left: polls_left as nat,
                }),
                polls_left == 0 ==> dfu_run(s0, added(h0, self.calls()), x) == DfuStep::Done(DfuEnd::PollLimit),
            decreases polls_left,
        {
            let ghost left = polls_left as nat;
            polls_left = polls_left - 1;
            let ghost before = self.calls();
            let res = self.get_status();
            proof {
                lemma_push_no_dnload(h0, before, self.calls().last(), iface);
                lemma_added_push(h0, before, self.calls().last());
                lemma_run_push(s0, added(h0, before), self.calls().last(), x);
            }
            let status = match res {
                Ok(s) => s,
                Err(e) => return Err(e),
            };
            match block_step(status.status, status.state) {
                PollStep::SleepPollTimeout | PollStep::SleepFixed => {
                    let ghost mid = self.calls();
                    self.handle.pause(status.poll_timeout as u64);
                    proof {
                        lemma_push_no_dnload(h0, mid, UsbCall::Pause { ms: status.poll_timeout as u64 }, iface);
                        lemma_added_push(h0, mid, UsbCall::Pause { ms: status.poll_timeout as u64 });
                        lemma_run_push(s0, added(h0, mid), UsbCall::Pause { ms: status.poll_timeout as u64 }, x);
                    }
                },
                PollStep::Ready => {
                    return Ok(());
                },
                PollStep::StatusFailed => {
                    return Err(Self::status_error("DFU error: ", status.status));
                },
                PollStep::ErrorState => {
                    return Err(UsbError::Unknown("DFU error state".to_string()));
                },
                PollStep::Unexpected => {
                    return Err(UsbError::Unknown(concat("Unexpected state: ", status.state.name())));
                },
            }
        }
        Err(UsbError::Unknown("DFU status poll limit reached".to_string()))
    }

    /// Polls GETSTATUS after the final empty DNLOAD until manifestation
    /// ends: the requests follow the manifestation wait of the exchange.
    fn wait_for_manifest(&mut self, Ghost(x): Ghost<DfuContext>) -> (r: Result<(), UsbError>)
        requires
            x.iface == old(self).spec_interface() as u16,
            x.timeout == old(self).spec_timeout(),
        ensures
            final(self).same_setup(old(self)),
            extends(old(self).calls(), final(self).calls()),
            no_dnload(added(old(self).calls(), final(self).calls()), old(self).spec_interface() as u16),
            r is Ok ==> (final(self).spec_state() is DfuManifestWaitReset || final(self).spec_state() is DfuIdle),
            ends_as(
                dfu_run(DfuStep::Manifest { left: MAX_STATUS_POLLS as nat }, added(old(self).calls(), final(self).calls()), x),
                failure_of(r),
            ),
    {
        let ghost h0 = self.calls();
        let ghost iface = self.interface as u16;
        let ghost s0 = DfuStep::Manifest { left: MAX_STATUS_POLLS as nat };
        proof {
            lemma_extends_refl(h0);
        }
        let mut polls_left: u64 = MAX_STATUS_POLLS;
        while polls_left > 0
            invariant
                self.same_setup(old(self)),
                h0 == old(self).calls(),
                iface == old(self).spec_interface() as u16,
                x.iface == iface,
                x.timeout == self.spec_timeout(),
                s0 == (DfuStep::Manifest { left: MAX_STATUS_POLLS as nat }),
                extends(h0, self.calls()),
                no_dnload(added(h0, self.calls()), iface),
                polls_left > 0 ==> dfu_run(s0, added(h0, self.calls()), x) == (DfuStep::Manifest { left: polls_left as nat }),
                polls_left == 0 ==> dfu_run(s0, added(h0, self.calls()), x) == DfuStep::Done(DfuEnd::PollLimit),
            decreases polls_left,
        {
            polls_left = polls_left - 1;
            let ghost before = self.calls();
            let res = self.get_status();
            proof {
                lemma_push_no_dnload(h0, before, self.calls().last(), iface);
                lemma_added_push(h0, before, self.calls().last());
                lemma_run_push(s0, added(h0, before), self.calls().last(), x);
            }
            let status = match res {
                Ok(s) => s,
                Err(e) => return Err(e),
            };
            match manifest_step(status.status, status.state) {
                PollStep::SleepPollTimeout => {
                    let ghost mid = self.calls();
                    self.handle.pause(status.poll_timeout as u64);
                    proof {
                        lemma_push_no_dnload(h0, mid, UsbCall::Pause { ms: status.poll_timeout as u64 }, iface);
                        lemma_added_push(h0, mid, UsbCall::Pause { ms: status.poll_timeout as u64 });
                        lemma_run_push(s0, added(h0, mid), UsbCall::Pause { ms: status.poll_timeout as u64 }, x);
                    }
                },
                PollStep::Ready => {
                    return Ok(());
                },
                PollStep::StatusFailed => {
                    return Err(Self::status_error("Manifestation error: ", status.status));
                },
                _ => {
                    let ghost mid = self.calls();
                    self.handle.pause(MANIFEST_FALLBACK_SLEEP_MS);
                    proof {
                        lemma_push_no_dnload(h0, mid, UsbCall::Pause { ms: MANIFEST_FALLBACK_SLEEP_MS }, iface);
                        lemma_added_push(h0, mid, UsbCall::Pause { ms: MANIFEST_FALLBACK_SLEEP_MS });
                        lemma_run_push(s0, added(h0, mid), UsbCall::Pause { ms: MANIFEST_FALLBACK_SLEEP_MS }, x);
                    }
                },
            }
        }
        Err(UsbError::Unknown("DFU status poll limit reached".to_string()))
    }

    /// Aborts and re-polls when the cached state is not idle.
    fn ensure_idle(&mut self, Ghost(x): Ghost<DfuContext>) -> (r: Result<(), UsbError>)
        requires
            x.iface == old(self).spec_interface() as u16,
            x.timeout == old(self).spec_timeout(),
        ensures
            final(self).same_setup(old(self)),
            extends(old(self).calls(), final(self).calls()),
            no_dnload(added(old(self).calls(), final(self).calls()), old(self).spec_interface() as u16),
            no_upload(added(old(self).calls(), final(self).calls()), old(self).spec_interface() as u16, old(self).spec_transfer_size() as usize),
            old(self).spec_state() == DfuState::DfuIdle ==> final(self).calls() == old(self).calls() && r is Ok,
            old(self).spec_state() != DfuState::DfuIdle ==> {
                let a = added(old(self).calls(), final(self).calls());
                &&& a.len() >= 1
                &&& is_control_out(a[0], DFU_REQUEST_OUT, DFU_ABORT, 0, old(self).spec_interface() as u16, old(self).spec_timeout())
                &&& call_result(a[0]) is Ok ==> a.len() == 2 && is_control_in(
                    a[1],
                    DFU_REQUEST_IN,
                    DFU_GETSTATUS,
                    0,
                    old(self).spec_interface() as u16,
                    DFU_STATUS_LEN,
                    old(self).spec_timeout(),
                )
            },
            ({
                let run = dfu_run(exchange_start(old(self).spec_state(), x), added(old(self).calls(), final(self).calls()), x);
                &&& r is Ok ==> run == transfer_start(x)
                &&& r is Err ==> ends_as(run, failure_of(r))
            }),
    {
        let ghost h0 = self.calls();
        let ghost iface = self.interface as u16;
        proof {
            lemma_extends_refl(h0);
        }
        if self.state != DfuState::DfuIdle {
            let r1 = self.abort();
            proof {
                lemma_added_push(h0, h0, self.calls().last());
                lemma_run_push(DfuStep::Abort, added(h0, h0), self.calls().last(), x);
                lemma_push_no_dnload(h0, h0, self.calls().last(), iface);
                lemma_push_no_upload(h0, h0, self.calls().last(), iface, self.transfer_size as usize);
                assert(added(h0, self.calls())[0] == self.calls().last());
            }
            match r1 {
                Ok(()) => {},
                Err(e) => return Err(e),
            }
            let ghost h1 = self.calls();
            let r2 = self.get_status();
            proof {
                lemma_added_push(h0, h1, self.calls().last());
                lemma_run_push(DfuStep::Abort, added(h0, h1), self.calls().last(), x);
                lemma_push_no_dnload(h0, h1, self.calls().last(), iface);
                lemma_push_no_upload(h0, h1, self.calls().last(), iface, self.transfer_size as usize);
                assert(added(h0, self.calls())[0] == added(h0, h1)[0]);
                assert(added(h0, self.calls())[1] == self.calls().last());
            }
            match r2 {
                Ok(_) => {},
                Err(e) => return Err(e),
            }
        }
        Ok(())
    }

    /// Writes a firmware image: when the cached state is not idle, first
    /// ABORT and GETSTATUS; then DNLOAD of the image in consecutive blocks of
    /// the transfer size (the last may be shorter) numbered from 0, waiting
    /// after each until the device is ready and reporting (bytes sent,
    /// total) to `progress`; then an empty DNLOAD, and a wait for
    /// manifestation to end in wait-reset or idle.
    pub fn download<P: ProgressSink>(&mut self, firmware: &[u8], progress: &mut P) -> (r: Result<(), UsbError>)
        requires
            old(self).spec_transfer_size() > 0 || firmware@.len() == 0,
        ensures
            final(progress).reports().len() >= old(progress).reports().len(),
            final(progress).reports().subrange(0, old(progress).reports().len() as int) == old(progress).reports(),
            r is Ok ==> final(progress).reports() == old(progress).reports() + reports_of(
                chunk_ends(firmware@.len(), 0, old(self).spec_transfer_size() as nat),
                firmware@.len() as usize,
            ),
            final(self).same_setup(old(self)),
            extends(old(self).calls(), final(self).calls()),
            r is Ok ==> (final(self).spec_state() is DfuManifestWaitReset || final(self).spec_state() is DfuIdle),
            old(self).spec_state() != DfuState::DfuIdle ==> {
                let a = added(old(self).calls(), final(self).calls());
                a.len() >= 1 && is_control_out(a[0], DFU_REQUEST_OUT, DFU_ABORT, 0, old(self).spec_interface() as u16, old(self).spec_timeout())
            },
            r is Ok ==> dnloads(added(old(self).calls(), final(self).calls()), old(self).spec_interface() as u16)
                == firmware_blocks(firmware@, 0, old(self).spec_transfer_size() as nat, 0),
            added(old(self).calls(), final(self).calls()).len() > 0,
            old(self).spec_state() != DfuState::DfuIdle && call_result(added(old(self).calls(), final(self).calls())[0]) is Ok
                ==> {
                let a = added(old(self).calls(), final(self).calls());
                a.len() >= 2 && is_getstatus(a[1], old(self).download_context(firmware@))
            },
            ends_as(
                dfu_run(
                    exchange_start(old(self).spec_state(), old(self).download_context(firmware@)),
                    added(old(self).calls(), final(self).calls()),
                    old(self).download_context(firmware@),
                ),
                failure_of(r),
            ),
    {
        let ghost h0 = self.calls();
        let ghost x = self.download_context(firmware@);
        let ghost st0 = self.state;
        let ri = self.ensure_idle(Ghost(x));
        let ghost h1 = self.calls();
        proof {
            if st0 != DfuState::DfuIdle {
                assert(added(h0, h1).len() >= 1);
            }
        }
        match ri {
            Ok(()) => {},
            Err(e) => return Err(e),
        }
        let r = self.send_image(firmware, progress, Ghost(h0), Ghost(x));
        proof {
            lemma_added_concat(h0, h1, self.calls());
            lemma_run_concat(exchange_start(st0, x), added(h0, h1), added(h1, self.calls()), x);
            if st0 != DfuState::DfuIdle {
                lemma_added_prefix(h0, h1, self.calls(), 0);
                if call_result(added(h0, self.calls())[0]) is Ok {
                    lemma_added_prefix(h0, h1, self.calls(), 1);
                }
            }
        }
        r
    }

    /// The DNLOAD blocks, the empty block and the manifestation wait of a
    /// download, the requests since `h0` holding no DNLOAD before.
    fn send_image<P: ProgressSink>(&mut self, firmware: &[u8], progress: &mut P, Ghost(h0): Ghost<Seq<UsbCall>>, Ghost(x): Ghost<DfuContext>) -> (r: Result<(), UsbError>)
        requires
            x.fw == firmware@,
            x.size == old(self).spec_transfer_size() as nat,
            x.iface == old(self).spec_interface() as u16,
            x.timeout == old(self).spec_timeout(),
            !x.upload,
            old(self).spec_transfer_size() > 0 || firmware@.len() == 0,
            extends(h0, old(self).calls()),
            no_dnload(added(h0, old(self).calls()), old(self).spec_interface() as u16),
        ensures
            final(self).same_setup(old(self)),
            extends(old(self).calls(), final(self).calls()),
            r is Ok ==> (final(self).spec_state() is DfuManifestWaitReset || final(self).spec_state() is DfuIdle),
            r is Ok ==> dnloads(added(h0, final(self).calls()), old(self).spec_interface() as u16)
                == firmware_blocks(firmware@, 0, old(self).spec_transfer_size() as nat, 0),
            added(old(self).calls(), final(self).calls()).len() > 0,
            ends_as(dfu_run(DfuStep::Block { offset: 0, num: 0 }, added(old(self).calls(), final(self).calls()), x), failure_of(r)),
            final(progress).reports().len() >= old(progress).reports().len(),
            final(progress).reports().subrange(0, old(progress).reports().len() as int) == old(progress).reports(),
            r is Ok ==> final(progress).reports() == old(progress).reports() + reports_of(
                chunk_ends(firmware@.len(), 0, old(self).spec_transfer_size() as nat),
                firmware@.len() as usize,
            ),
    {
        let ghost h1 = self.calls();
        let ghost iface = self.interface as u16;
        let total = firmware.len();
        let size = self.transfer_size as usize;
        let mut offset: usize = 0;
        let mut block_num: u16 = 0;
        let ghost mut k: nat = 0;
        // the counts handed to `progress` so far
        let ghost mut reported: Seq<nat> = Seq::empty();
        let ghost b0 = DfuStep::Block { offset: 0, num: 0 };
        proof {
            lemma_extends_refl(h1);
            lemma_extends_refl(h0);
            lemma_no_dnload_keeps(h0, h0, h1, iface);
            assert(dnloads(added(h0, h0), iface) =~= Seq::<(u16, Seq<u8>)>::empty());
            assert(dnloads(added(h0, h1), iface) + firmware_blocks(firmware@, 0, size as nat, 0) =~= firmware_blocks(
                firmware@,
                0,
                size as nat,
                0,
            ));
        }
        while offset < total
            invariant
                self.same_setup(old(self)),
                iface == old(self).spec_interface() as u16,
                size == self.spec_transfer_size() as usize,
                size > 0 || total == 0,
                offset <= total,
                total == firmware@.len(),
                h1 == old(self).calls(),
                extends(h0, h1),
                extends(h1, self.calls()),
                extends(h0, self.calls()),
                dnloads(added(h0, self.calls()), iface) + firmware_blocks(firmware@, offset as nat, size as nat, k)
                    == firmware_blocks(firmware@, 0, size as nat, 0),
                block_num == (k % 0x10000) as u16,
                x.fw == firmware@,
                x.size == size as nat,
                x.iface == iface,
                x.timeout == self.spec_timeout(),
                !x.upload,
                b0 == (DfuStep::Block { offset: 0, num: 0 }),
                dfu_run(b0, added(h1, self.calls()), x) == (DfuStep::Block { offset: offset as nat, num: k }),
                reported + chunk_ends(total as nat, offset as nat, size as nat) == chunk_ends(
                    total as nat,
                    0,
                    size as nat,
                ),
                progress.reports() == old(progress).reports() + reports_of(reported, total),
            decreases total - offset,
        {
            let end = block_end(total, offset, size);
            let chunk = &firmware[offset..end];
            let ghost before = self.calls();
            let ghost d = dnloads(added(h0, before), iface);
            let rb = self.download_block(block_num, chunk);
            proof {
                let c = self.calls().last();
                lemma_added_push(h0, before, c);
                lemma_dnloads_push(added(h0, before), c, iface);
                lemma_extends_refl(before);
                lemma_added_push(before, before, c);
                lemma_extends_trans(h1, before, self.calls());
                lemma_added_push(h1, before, c);
                lemma_run_push(b0, added(h1, before), c, x);
                assert(chunk@ == firmware@.subrange(offset as int, end as int));
                let rest = firmware_blocks(firmware@, end as nat, size as nat, k + 1);
                assert(firmware_blocks(firmware@, offset as nat, size as nat, k) == seq![
                    ((k % 0x10000) as u16, firmware@.subrange(offset as int, end as int)),
                ] + rest);
                assert(d.push(dnload_payload(c)) + rest =~= d + (seq![dnload_payload(c)] + rest));
            }
            match rb {
                Ok(()) => {},
                Err(e) => return Err(e),
            }
            let ghost mid = self.calls();
            let rw = self.wait_for_ready(Ghost(x), Ghost(end as nat), Ghost(k + 1));
            proof {
                lemma_no_dnload_keeps(h0, mid, self.calls(), iface);
                lemma_extends_trans(h1, mid, self.calls());
                lemma_added_concat(h1, mid, self.calls());
                lemma_run_concat(b0, added(h1, mid), added(mid, self.calls()), x);
            }
            match rw {
                Ok(()) => {},
                Err(e) => return Err(e),
            }
            proof {
                let rest = chunk_ends(total as nat, end as nat, size as nat);
                assert(chunk_ends(total as nat, offset as nat, size as nat) == seq![end as nat].add(rest));
                assert(reported.push(end as nat) + rest =~= reported + seq![end as nat].add(rest));
                reported = reported.push(end as nat);
                assert(((k % 0x10000) + 1) % 0x10000 == (k + 1) % 0x10000) by (nonlinear_arith);
                k = k + 1;
            }
            offset = end;
            block_num = block_num.wrapping_add(1);
            let ghost before_report = progress.reports();
            progress.report(offset, total);
            proof {
                assert(reports_of(reported, total) =~= reports_of(reported.drop_last(), total).push((offset, total)));
            }
        }
        let empty: Vec<u8> = Vec::new();
        let ghost before = self.calls();
        let ghost d = dnloads(added(h0, before), iface);
        let rb = self.download_block(block_num, empty.as_slice());
        proof {
            let c = self.calls().last();
            lemma_added_push(h0, before, c);
            lemma_dnloads_push(added(h0, before), c, iface);
            lemma_extends_refl(before);
            lemma_added_push(before, before, c);
            lemma_extends_trans(h1, before, self.calls());
            lemma_added_push(h1, before, c);
            lemma_run_push(b0, added(h1, before), c, x);
            assert(empty@ =~= Seq::<u8>::empty());
            assert(d.push(dnload_payload(c)) =~= d + firmware_blocks(firmware@, offset as nat, size as nat, k));
        }
        match rb {
            Ok(()) => {},
            Err(e) => return Err(e),
        }
        let ghost mid = self.calls();
        let r = self.wait_for_manifest(Ghost(x));
        proof {
            lemma_no_dnload_keeps(h0, mid, self.calls(), iface);
            lemma_extends_trans(h1, mid, self.calls());
            lemma_added_concat(h1, mid, self.calls());
            lemma_run_concat(b0, added(h1, mid), added(mid, self.calls()), x);
        }
        r
    }

    /// Reads a firmware image: after making sure the device is idle, issues
    /// UPLOAD of blocks 0, 1, ... into a buffer of the transfer size and
    /// appends the bytes each brings, reporting (bytes so far, `max_size`)
    /// to `progress`. Stops on an empty block, once `max_size` bytes are
    /// reached, or on a block shorter than the transfer size; polls
    /// GETSTATUS after every other block. The image is what the UPLOAD
    /// requests received, in order.
    pub fn upload<P: ProgressSink>(&mut self, max_size: usize, progress: &mut P) -> (r: Result<Vec<u8>, UsbError>)
        ensures
            final(progress).reports().len() >= old(progress).reports().len(),
            r is Ok ==> final(progress).reports() == old(progress).reports() + upload_reports(
                added(old(self).calls(), final(self).calls()),
                old(self).spec_interface() as u16,
                old(self).spec_transfer_size() as usize,
                max_size,
            ),
            final(self).same_setup(old(self)),
            extends(old(self).calls(), final(self).calls()),
            r matches Ok(fw) ==> fw@.len() <= max_size + old(self).spec_transfer_size(),
            r matches Ok(fw) ==> fw@ == uploaded(
                added(old(self).calls(), final(self).calls()),
                old(self).spec_interface() as u16,
                old(self).spec_transfer_size() as usize,
            ),
            added(old(self).calls(), final(self).calls()).len() > 0,
            ends_as(
                dfu_run(
                    exchange_start(old(self).spec_state(), old(self).upload_context(max_size as nat)),
                    added(old(self).calls(), final(self).calls()),
                    old(self).upload_context(max_size as nat),
                ),
                failure_of(r),
            ),
    {
        let ghost h0 = self.calls();
        let ghost iface = self.interface as u16;
        let size = self.transfer_size as usize;
        let ghost x = self.upload_context(max_size as nat);
        let ghost st0 = self.state;
        let ri = self.ensure_idle(Ghost(x));
        let ghost h1 = self.calls();
        let ghost t0 = transfer_start(x);
        match ri {
            Ok(()) => {},
            Err(e) => return Err(e),
        }
        proof {
            lemma_extends_refl(h1);
            lemma_extends_refl(h0);
            lemma_no_upload_keeps(h0, h0, self.calls(), iface, size);
            assert(uploaded(added(h0, h0), iface, size) =~= Seq::<u8>::empty());
            assert(upload_reports(added(h0, h0), iface, size, max_size) =~= Seq::<(usize, usize)>::empty());
            assert(progress.reports() =~= old(progress).reports() + upload_reports(added(h0, self.calls()), iface, size, max_size));
        }
        let mut firmware: Vec<u8> = Vec::new();
        let mut block_num: u16 = 0;
        let ghost mut k: nat = 0;
        let mut buf: Vec<u8> = vec![0u8; size];
        loop
            invariant_except_break
                firmware@.len() == 0 || firmware@.len() < max_size,
                dfu_run(t0, added(h1, self.calls()), x) == (DfuStep::Upload { num: k, received: firmware@ }),
            invariant
                self.same_setup(old(self)),
                iface == old(self).spec_interface() as u16,
                size == self.spec_transfer_size() as usize,
                buf@.len() == size,
                firmware@.len() <= max_size + size,
                h0 == old(self).calls(),
                extends(h0, self.calls()),
                firmware@ == uploaded(added(h0, self.calls()), iface, size),
                progress.reports().len() >= old(progress).reports().len(),
                progress.reports() == old(progress).reports() + upload_reports(added(h0, self.calls()), iface, size, max_size),
                x == old(self).upload_context(max_size as nat),
                t0 == transfer_start(x),
                extends(h0, h1),
                extends(h1, self.calls()),
                block_num == (k % 0x10000) as u16,
                st0 == old(self).spec_state(),
                extends(h0, h1),
                dfu_run(exchange_start(st0, x), added(h0, h1), x) == t0,
            ensures
                added(h0, self.calls()).len() > 0,
                extends(h1, self.calls()),
                dfu_run(t0, added(h1, self.calls()), x) == DfuStep::Done(DfuEnd::Success),
            decreases max_size + 1 - firmware@.len(),
        {
            let ghost before = self.calls();
            let rb = self.upload_block(block_num, buf.as_mut_slice());
            proof {
                let c = self.calls().last();
                lemma_added_push(h0, before, c);
                lemma_uploaded_push(added(h0, before), c, iface, size);
                lemma_extends_refl(before);
                lemma_added_push(before, before, c);
                lemma_extends_trans(h1, before, self.calls());
                lemma_added_push(h1, before, c);
                lemma_run_push(t0, added(h1, before), c, x);
                lemma_added_concat(h0, h1, self.calls());
                lemma_run_concat(exchange_start(st0, x), added(h0, h1), added(h1, self.calls()), x);
            }
            let bytes = match rb {
                Ok(n) => n,
                Err(e) => return Err(e),
            };
            if bytes == 0 {
                assert(upload_bytes(self.calls().last()) =~= Seq::<u8>::empty());
                assert(firmware@ =~= uploaded(added(h0, self.calls()), iface, size));
                break;
            }
            let ghost start = firmware@;
            let mut i: usize = 0;
            while i < bytes
                invariant
                    bytes <= buf@.len(),
                    i <= bytes,
                    firmware@ == start + buf@.subrange(0, i as int),
                decreases bytes - i,
            {
                firmware.push(buf[i]);
                i = i + 1;
                assert(firmware@ =~= start + buf@.subrange(0, i as int));
            }
            proof {
                assert(upload_bytes(self.calls().last()) == buf@.subrange(0, bytes as int));
            }
            block_num = block_num.wrapping_add(1);
            proof {
                assert(((k % 0x10000) + 1) % 0x10000 == (k + 1) % 0x10000) by (nonlinear_arith);
                k = k + 1;
            }
            let ghost reps = progress.reports();
            progress.report(firmware.len(), max_size);
            proof {
                assert(progress.reports() =~= old(progress).reports() + upload_reports(added(h0, self.calls()), iface, size, max_size));
            }
            if !upload_continues(firmware.len(), bytes, max_size, size) {
                break;
            }
            let ghost mid = self.calls();
            let rs = self.get_status();
            proof {
                lemma_extends_refl(mid);
                lemma_push_no_upload(mid, mid, self.calls().last(), iface, size);
                lemma_no_upload_keeps(h0, mid, self.calls(), iface, size);
                lemma_added_push(mid, mid, self.calls().last());
                lemma_extends_trans(h1, mid, self.calls());
                lemma_added_push(h1, mid, self.calls().last());
                lemma_run_push(t0, added(h1, mid), self.calls().last(), x);
                lemma_added_concat(h0, h1, self.calls());
                lemma_run_concat(exchange_start(st0, x), added(h0, h1), added(h1, self.calls()), x);
            }
            match rs {
                Ok(_) => {},
                Err(e) => return Err(e),
            }
        }
        proof {
            lemma_added_concat(h0, h1, self.calls());
            lemma_run_concat(exchange_start(st0, x), added(h0, h1), added(h1, self.calls()), x);
        }
        Ok(firmware)
    }
}

impl<'a, H: DeviceHandle> UsbProtocol for DfuClient<'a, H> {
    fn name(&self) -> (r: &'static str)
        ensures
            r@ == "DFU"@,
    {
        "DFU"
    }

    /// True while the cached state is a DFU-mode state.
    fn is_connected(&self) -> (r: bool)
        ensures
            r == self.spec_state().spec_is_dfu_mode(),
    {
        self.state.is_dfu_mode()
    }

    fn version(&self) -> (r: Option<String>)
        ensures
            r matches Some(v) && v@ == "1.1"@,
    {
        Some("1.1".to_string())
    }
}

} // verus!
