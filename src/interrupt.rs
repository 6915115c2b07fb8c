//! Interrupt transfers, a polling loop over an interrupt IN endpoint, and
//! HID class requests.
use crate::errors::UsbError;
use crate::handle::{
    added, call_data, call_result, elapsed, extends, is_control_in, is_control_out, lemma_added_push, lemma_extends_refl, millis,
    mirrors, now, one_request, DeviceHandle,
    TransferResult, UsbCall, DEFAULT_TIMEOUT_MS,
};
use std::sync::atomic::{AtomicBool, Ordering};
use std::sync::Arc;
use std::time::Duration;
use vstd::prelude::*;

verus! {

/// Timeout of a non-blocking style read, in milliseconds.
pub const TRY_READ_TIMEOUT_MS: u64 = 1;

/// Interrupt transfer helper with a timeout.
pub struct InterruptTransfer<'a, H: DeviceHandle> {
    handle: &'a mut H,
    timeout: Duration,
}

impl<'a, H: DeviceHandle> InterruptTransfer<'a, H> {
    pub closed spec fn spec_timeout(&self) -> Duration {
        self.timeout
    }

    /// The requests made through the device handle so far.
    pub closed spec fn calls(&self) -> Seq<UsbCall> {
        self.handle.calls()
    }

    pub fn new(handle: &'a mut H) -> (r: Self)
        ensures
            r.calls() == old(handle).calls(),
    {
        InterruptTransfer { handle, timeout: millis(DEFAULT_TIMEOUT_MS) }
    }

    pub fn with_timeout(self, timeout: Duration) -> (r: Self)
        ensures
            r.spec_timeout() == timeout,
            r.calls() == self.calls(),
    {
        InterruptTransfer { timeout, ..self }
    }

    /// One interrupt read from the IN endpoint (direction bit set), with no
    /// retry: its answer is the result.
    pub fn read(&mut self, endpoint: u8, buf: &mut [u8]) -> (r: Result<usize, UsbError>)
        ensures
            final(buf)@.len() == old(buf)@.len(),
            r matches Ok(n) ==> n <= old(buf)@.len(),
            final(self).spec_timeout() == old(self).spec_timeout(),
            final(self).calls() == old(self).calls().push(
                UsbCall::InterruptRead {
                    endpoint: endpoint | 0x80,
                    len: old(buf)@.len() as usize,
                    timeout: old(self).spec_timeout(),
                    result: r,
                    data: final(buf)@,
                },
            ),
    {
        self.handle.interrupt_read(endpoint | 0x80, buf, self.timeout)
    }

    /// One interrupt write to the OUT endpoint (direction bit cleared), with
    /// no retry: its answer is the result.
    pub fn write(&mut self, endpoint: u8, buf: &[u8]) -> (r: Result<usize, UsbError>)
        ensures
            r matches Ok(n) ==> n <= buf@.len(),
            final(self).spec_timeout() == old(self).spec_timeout(),
            final(self).calls() == old(self).calls().push(
                UsbCall::InterruptWrite { endpoint: endpoint & 0x7F, data: buf@, timeout: old(self).spec_timeout(), result: r },
            ),
    {
        self.handle.interrupt_write(endpoint & 0x7F, buf, self.timeout)
    }

    /// `read`, timed, with its outcome as a `TransferResult`.
    pub fn read_with_result(&mut self, endpoint: u8, buf: &mut [u8]) -> (r: TransferResult)
        ensures
            final(buf)@.len() == old(buf)@.len(),
            r.success ==> r.bytes_transferred <= old(buf)@.len(),
            final(self).calls().len() == old(self).calls().len() + 1,
            r.success <==> call_result(final(self).calls().last()) is Ok,
            r.success ==> call_result(final(self).calls().last()) == Ok::<usize, UsbError>(r.bytes_transferred),
    {
        let start = now();
        match self.read(endpoint, buf) {
            Ok(n) => TransferResult::success(n, elapsed(&start)),
            Err(e) => TransferResult::failure(e.message(), elapsed(&start)),
        }
    }

    /// One interrupt read with a one-millisecond timeout: `Some` of the
    /// byte count exactly when it succeeds.
    pub fn try_read(&mut self, endpoint: u8, buf: &mut [u8]) -> (r: Option<usize>)
        ensures
            final(buf)@.len() == old(buf)@.len(),
            r matches Some(n) ==> n <= old(buf)@.len(),
            one_request(old(self).calls(), final(self).calls()),
            is_interrupt_in(final(self).calls().last(), endpoint | 0x80, old(buf)@.len() as usize),
            call_data(final(self).calls().last()) == final(buf)@,
            match call_result(final(self).calls().last()) {
                Ok(n) => r == Some(n),
                Err(_) => r is None,
            },
    {
        match self.handle.interrupt_read(endpoint | 0x80, buf, millis(TRY_READ_TIMEOUT_MS)) {
            Ok(n) => Some(n),
            Err(_) => None,
        }
    }
}

/// An interrupt read from `endpoint` into a buffer of `len` bytes.
pub open spec fn is_interrupt_in(c: UsbCall, endpoint: u8, len: usize) -> bool {
    c matches UsbCall::InterruptRead { endpoint: e, len: l, .. } && e == endpoint && l == len
}

/// Most reads of one `poll` call.
pub const MAX_POLL_READS: u64 = 0xFFFF_FFFF_FFFF_FFFF;

/// Default interval of the poller, in milliseconds.
pub const DEFAULT_POLL_INTERVAL_MS: u64 = 10;

/// The transport timed out: what a poll loop expects and reads past.
pub open spec fn is_timeout(e: UsbError) -> bool {
    e matches UsbError::UsbLib(k) && k == rusb::Error::Timeout
}

/// Whether a failed poll read only timed out, so that polling goes on.
pub fn timeout_error(e: &UsbError) -> (r: bool)
    ensures
        r == is_timeout(*e),
{
    match e {
        UsbError::UsbLib(rusb::Error::Timeout) => true,
        _ => false,
    }
}

/// A cancellation token for `InterruptPoller::poll`: clones share one
/// flag, so another thread can ask a poll to end; the poll checks it before
/// each read.
#[derive(Clone)]
pub struct StopFlag {
    flag: Arc<AtomicBool>,
}

impl StopFlag {
    /// A token that has not been used to stop anything.
    pub fn new() -> (r: Self) {
        StopFlag { flag: Arc::new(AtomicBool::new(false)) }
    }

    /// Asks every poll that checks this token to end before its next read.
    pub fn stop(&self) {
        self.flag.store(true, Ordering::SeqCst);
    }

    /// Whether `stop` was called on this token or a clone of it.
    pub fn is_stopped(&self) -> bool {
        self.flag.load(Ordering::SeqCst)
    }
}

/// Continuous reader of an interrupt IN endpoint.
pub struct InterruptPoller {
    endpoint: u8,
    buffer_size: usize,
    poll_interval: Duration,
    running: bool,
}

impl InterruptPoller {
    pub closed spec fn spec_endpoint(&self) -> u8 {
        self.endpoint
    }

    pub closed spec fn spec_buffer_size(&self) -> usize {
        self.buffer_size
    }

    pub closed spec fn spec_poll_interval(&self) -> Duration {
        self.poll_interval
    }

    /// Whether a `poll` is under way.
    pub closed spec fn spec_running(&self) -> bool {
        self.running
    }

    /// `c` is one of the poller's reads: its endpoint, its buffer size.
    pub open spec fn is_poll_read(&self, c: UsbCall) -> bool {
        c matches UsbCall::InterruptRead { endpoint, len, .. } && endpoint == self.spec_endpoint() && len
            == self.spec_buffer_size()
    }

    /// A stopped poller of the IN endpoint `endpoint` that reads up to
    /// `buffer_size` bytes at a time, every 10 ms by default.
    pub fn new(endpoint: u8, buffer_size: usize) -> (r: Self)
        ensures
            r.spec_endpoint() == endpoint | 0x80,
            r.spec_buffer_size() == buffer_size,
            !r.spec_running(),
    {
        InterruptPoller {
            endpoint: endpoint | 0x80,
            buffer_size,
            poll_interval: millis(DEFAULT_POLL_INTERVAL_MS),
            running: false,
        }
    }

    pub fn with_poll_interval(self, interval: Duration) -> (r: Self)
        ensures
            r.spec_endpoint() == self.spec_endpoint(),
            r.spec_buffer_size() == self.spec_buffer_size(),
            r.spec_poll_interval() == interval,
            r.spec_running() == self.spec_running(),
    {
        InterruptPoller { poll_interval: interval, ..self }
    }

    /// Reads the endpoint until the callback returns false, `stop_flag` is
    /// stopped, or a read fails with an error other than a timeout (which
    /// is returned). Each chunk received goes to the callback. The poller
    /// runs while it polls and is stopped when it returns.
    pub fn poll<H: DeviceHandle, F: FnMut(&[u8]) -> bool>(
        &mut self,
        handle: &mut H,
        callback: F,
        stop_flag: &StopFlag,
    ) -> (r: Result<(), UsbError>)
        requires
            forall|s: &[u8]| #[trigger] callback.requires((s,)),
        ensures
            !final(self).spec_running(),
            final(self).spec_endpoint() == old(self).spec_endpoint(),
            final(self).spec_buffer_size() == old(self).spec_buffer_size(),
            final(self).spec_poll_interval() == old(self).spec_poll_interval(),
            r matches Err(e) ==> !is_timeout(e) && call_result(final(handle).calls().last()) == Err::<usize, UsbError>(e),
            extends(old(handle).calls(), final(handle).calls()),
            forall|i: int| 0 <= i < added(old(handle).calls(), final(handle).calls()).len() ==> old(self).is_poll_read(
                #[trigger] added(old(handle).calls(), final(handle).calls())[i],
            ),
    {
        let ghost h0 = handle.calls();
        proof {
            lemma_extends_refl(h0);
        }
        let mut callback = callback;
        self.running = true;
        let mut buffer: Vec<u8> = vec![0u8; self.buffer_size];
        let mut reads_left: u64 = MAX_POLL_READS;
        while reads_left > 0 && !stop_flag.is_stopped()
            invariant
                self.endpoint == old(self).endpoint,
                self.buffer_size == old(self).buffer_size,
                self.poll_interval == old(self).poll_interval,
                forall|s: &[u8]| #[trigger] callback.requires((s,)),
                buffer@.len() == self.buffer_size,
                h0 == old(handle).calls(),
                extends(h0, handle.calls()),
                forall|i: int| 0 <= i < added(h0, handle.calls()).len() ==> old(self).is_poll_read(#[trigger] added(h0, handle.calls())[i]),
            decreases reads_left,
        {
            reads_left = reads_left - 1;
            let ghost before = handle.calls();
            let res = handle.interrupt_read(self.endpoint, buffer.as_mut_slice(), self.poll_interval);
            proof {
                lemma_added_push(h0, before, handle.calls().last());
                assert(handle.calls() == before.push(handle.calls().last()));
                let p = added(h0, before);
                assert forall|i: int| 0 <= i < p.len() implies #[trigger] p.push(handle.calls().last())[i] == p[i] by {}
            }
            match res {
                Ok(n) => {
                    let chunk = &buffer.as_slice()[0..n];
                    if !callback(chunk) {
                        break;
                    }
                },
                Err(e) => {
                    if timeout_error(&e) {
                        continue;
                    }
                    self.running = false;
                    return Err(e);
                },
            }
        }
        self.running = false;
        Ok(())
    }

    /// Marks the poller stopped.
    pub fn stop(&mut self)
        ensures
            !final(self).spec_running(),
            final(self).spec_endpoint() == old(self).spec_endpoint(),
            final(self).spec_buffer_size() == old(self).spec_buffer_size(),
            final(self).spec_poll_interval() == old(self).spec_poll_interval(),
    {
        self.running = false;
    }

    /// Whether a `poll` is under way.
    pub fn is_running(&self) -> (r: bool)
        ensures
            r == self.spec_running(),
    {
        self.running
    }
}

/// HID report kinds.
#[derive(Debug, Clone, Copy, PartialEq, Eq, Structural)]
pub enum ReportType {
    Input,
    Output,
    Feature,
}

impl ReportType {
    pub open spec fn spec_code(self) -> u8 {
        match self {
            ReportType::Input => 1,
            ReportType::Output => 2,
            ReportType::Feature => 3,
        }
    }

    /// The report type's code in a GET_REPORT / SET_REPORT value.
    pub fn code(&self) -> (r: u8)
        ensures
            r == self.spec_code(),
    {
        match self {
            ReportType::Input => 1,
            ReportType::Output => 2,
            ReportType::Feature => 3,
        }
    }
}

/// GET_REPORT class request.
pub const HID_GET_REPORT: u8 = 0x01;
/// GET_IDLE class request.
pub const HID_GET_IDLE: u8 = 0x02;
/// GET_PROTOCOL class request.
pub const HID_GET_PROTOCOL: u8 = 0x03;
/// SET_REPORT class request.
pub const HID_SET_REPORT: u8 = 0x09;
/// SET_IDLE class request.
pub const HID_SET_IDLE: u8 = 0x0A;
/// SET_PROTOCOL class request.
pub const HID_SET_PROTOCOL: u8 = 0x0B;

/// Device-to-host, class, interface.
pub const HID_REQUEST_IN: u8 = 0xA1;
/// Host-to-device, class, interface.
pub const HID_REQUEST_OUT: u8 = 0x21;

/// Default timeout of a HID request, in milliseconds.
pub const HID_DEFAULT_TIMEOUT_MS: u64 = 1000;

/// HID class requests on one interface.
pub struct HidDevice<'a, H: DeviceHandle> {
    handle: &'a mut H,
    interface: u8,
    timeout: Duration,
}

impl<'a, H: DeviceHandle> HidDevice<'a, H> {
    pub closed spec fn spec_interface(&self) -> u8 {
        self.interface
    }

    pub closed spec fn spec_timeout(&self) -> Duration {
        self.timeout
    }

    /// The requests made through the device handle so far.
    pub closed spec fn calls(&self) -> Seq<UsbCall> {
        self.handle.calls()
    }

    pub fn new(handle: &'a mut H, interface: u8) -> (r: Self)
        ensures
            r.spec_interface() == interface,
            r.calls() == old(handle).calls(),
    {
        HidDevice { handle, interface, timeout: millis(HID_DEFAULT_TIMEOUT_MS) }
    }

    pub fn with_timeout(self, timeout: Duration) -> (r: Self)
        ensures
            r.spec_interface() == self.spec_interface(),
            r.spec_timeout() == timeout,
            r.calls() == self.calls(),
    {
        HidDevice { timeout, ..self }
    }

    /// GET_REPORT into `buf`: type in the high byte of the value, ID in the
    /// low byte; the request's answer is the result.
    pub fn get_report(&mut self, report_type: ReportType, report_id: u8, buf: &mut [u8]) -> (r: Result<usize, UsbError>)
        ensures
            final(buf)@.len() == old(buf)@.len(),
            r matches Ok(n) ==> n <= old(buf)@.len(),
            final(self).calls() == old(self).calls().push(
                UsbCall::ControlRead {
                    request_type: HID_REQUEST_IN,
                    request: HID_GET_REPORT,
                    value: (report_type.spec_code() as int * 256 + report_id as int) as u16,
                    index: old(self).spec_interface() as u16,
                    len: old(buf)@.len() as usize,
                    timeout: old(self).spec_timeout(),
                    result: r,
                    data: final(buf)@,
                },
            ),
    {
        let value: u16 = report_type.code() as u16 * 256 + report_id as u16;
        self.handle.control_read(HID_REQUEST_IN, HID_GET_REPORT, value, self.interface as u16, buf, self.timeout)
    }

    /// SET_REPORT with `buf`; the request's answer is the result.
    pub fn set_report(&mut self, report_type: ReportType, report_id: u8, buf: &[u8]) -> (r: Result<usize, UsbError>)
        ensures
            r matches Ok(n) ==> n <= buf@.len(),
            final(self).calls() == old(self).calls().push(
                UsbCall::ControlWrite {
                    request_type: HID_REQUEST_OUT,
                    request: HID_SET_REPORT,
                    value: (report_type.spec_code() as int * 256 + report_id as int) as u16,
                    index: old(self).spec_interface() as u16,
                    data: buf@,
                    timeout: old(self).spec_timeout(),
                    result: r,
                },
            ),
    {
        let value: u16 = report_type.code() as u16 * 256 + report_id as u16;
        self.handle.control_write(HID_REQUEST_OUT, HID_SET_REPORT, value, self.interface as u16, buf, self.timeout)
    }

    /// GET_IDLE of a report: the one byte received.
    pub fn get_idle(&mut self, report_id: u8) -> (r: Result<u8, UsbError>)
        ensures
            one_request(old(self).calls(), final(self).calls()),
            is_control_in(final(self).calls().last(), HID_REQUEST_IN, HID_GET_IDLE, report_id as u16, old(self).spec_interface() as u16, 1, old(self).spec_timeout()),
            match call_result(final(self).calls().last()) {
                Ok(_) => r == Ok::<u8, UsbError>(call_data(final(self).calls().last())[0]),
                Err(e) => r == Err::<u8, UsbError>(e),
            },
    {
        let mut buf: Vec<u8> = vec![0u8; 1];
        match self.handle.control_read(HID_REQUEST_IN, HID_GET_IDLE, report_id as u16, self.interface as u16, buf.as_mut_slice(), self.timeout) {
            Ok(_) => Ok(buf[0]),
            Err(e) => Err(e),
        }
    }

    /// SET_IDLE: duration in the high byte of the value, report ID in the low.
    pub fn set_idle(&mut self, report_id: u8, duration: u8) -> (r: Result<(), UsbError>)
        ensures
            one_request(old(self).calls(), final(self).calls()),
            is_control_out(
                final(self).calls().last(),
                HID_REQUEST_OUT,
                HID_SET_IDLE,
                (duration as int * 256 + report_id as int) as u16,
                old(self).spec_interface() as u16,
                old(self).spec_timeout(),
            ),
            mirrors(r, call_result(final(self).calls().last())),
    {
        let value: u16 = duration as u16 * 256 + report_id as u16;
        let empty: Vec<u8> = Vec::new();
        match self.handle.control_write(HID_REQUEST_OUT, HID_SET_IDLE, value, self.interface as u16, empty.as_slice(), self.timeout) {
            Ok(_) => Ok(()),
            Err(e) => Err(e),
        }
    }

    /// GET_PROTOCOL: the one byte received (0 boot, 1 report).
    pub fn get_protocol(&mut self) -> (r: Result<u8, UsbError>)
        ensures
            one_request(old(self).calls(), final(self).calls()),
            is_control_in(final(self).calls().last(), HID_REQUEST_IN, HID_GET_PROTOCOL, 0, old(self).spec_interface() as u16, 1, old(self).spec_timeout()),
            match call_result(final(self).calls().last()) {
                Ok(_) => r == Ok::<u8, UsbError>(call_data(final(self).calls().last())[0]),
                Err(e) => r == Err::<u8, UsbError>(e),
            },
    {
        let mut buf: Vec<u8> = vec![0u8; 1];
        match self.handle.control_read(HID_REQUEST_IN, HID_GET_PROTOCOL, 0, self.interface as u16, buf.as_mut_slice(), self.timeout) {
            Ok(_) => Ok(buf[0]),
            Err(e) => Err(e),
        }
    }

    /// SET_PROTOCOL with `protocol` as the value.
    pub fn set_protocol(&mut self, protocol: u8) -> (r: Result<(), UsbError>)
        ensures
            one_request(old(self).calls(), final(self).calls()),
            is_control_out(final(self).calls().last(), HID_REQUEST_OUT, HID_SET_PROTOCOL, protocol as u16, old(self).spec_interface() as u16, old(self).spec_timeout()),
            mirrors(r, call_result(final(self).calls().last())),
    {
        let empty: Vec<u8> = Vec::new();
        match self.handle.control_write(HID_REQUEST_OUT, HID_SET_PROTOCOL, protocol as u16, self.interface as u16, empty.as_slice(), self.timeout) {
            Ok(_) => Ok(()),
            Err(e) => Err(e),
        }
    }
}

} // verus!
