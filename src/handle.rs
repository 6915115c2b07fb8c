//! The device-handle abstraction, timed transfer results and the clock and
//! duration primitives the transfer helpers use.
use crate::errors::UsbError;
use std::time::{Duration, Instant};
use vstd::prelude::*;

verus! {

/// One request made through a device handle, with its answer. For a read,
/// `data` is the whole buffer after the call (its first `n` bytes are the
/// ones received when the answer is `Ok(n)`).
pub enum UsbCall {
    BulkRead { endpoint: u8, len: usize, timeout: Duration, result: Result<usize, UsbError>, data: Seq<u8> },
    BulkWrite { endpoint: u8, data: Seq<u8>, timeout: Duration, result: Result<usize, UsbError> },
    ControlRead {
        request_type: u8,
        request: u8,
        value: u16,
        index: u16,
        len: usize,
        timeout: Duration,
        result: Result<usize, UsbError>,
        data: Seq<u8>,
    },
    ControlWrite {
        request_type: u8,
        request: u8,
        value: u16,
        index: u16,
        data: Seq<u8>,
        timeout: Duration,
        result: Result<usize, UsbError>,
    },
    InterruptRead { endpoint: u8, len: usize, timeout: Duration, result: Result<usize, UsbError>, data: Seq<u8> },
    InterruptWrite { endpoint: u8, data: Seq<u8>, timeout: Duration, result: Result<usize, UsbError> },
    Pause { ms: u64 },
}

/// The answer of a transfer request (`Ok(0)` for a pause).
pub open spec fn call_result(c: UsbCall) -> Result<usize, UsbError> {
    match c {
        UsbCall::BulkRead { result, .. } => result,
        UsbCall::BulkWrite { result, .. } => result,
        UsbCall::ControlRead { result, .. } => result,
        UsbCall::ControlWrite { result, .. } => result,
        UsbCall::InterruptRead { result, .. } => result,
        UsbCall::InterruptWrite { result, .. } => result,
        UsbCall::Pause { .. } => Ok(0),
    }
}

/// The buffer contents that a read request left (the data of a write).
pub open spec fn call_data(c: UsbCall) -> Seq<u8> {
    match c {
        UsbCall::BulkRead { data, .. } => data,
        UsbCall::BulkWrite { data, .. } => data,
        UsbCall::ControlRead { data, .. } => data,
        UsbCall::ControlWrite { data, .. } => data,
        UsbCall::InterruptRead { data, .. } => data,
        UsbCall::InterruptWrite { data, .. } => data,
        UsbCall::Pause { .. } => Seq::empty(),
    }
}

/// A control write of no data with the given fields.
pub open spec fn is_control_out(c: UsbCall, request_type: u8, request: u8, value: u16, index: u16, timeout: Duration) -> bool {
    c matches UsbCall::ControlWrite { request_type: t, request: q, value: v, index: i, data, timeout: d, .. }
        && t == request_type && q == request && v == value && i == index && data.len() == 0 && d == timeout
}

/// A control read into a buffer of `len` bytes with the given fields.
pub open spec fn is_control_in(
    c: UsbCall,
    request_type: u8,
    request: u8,
    value: u16,
    index: u16,
    len: usize,
    timeout: Duration,
) -> bool {
    c matches UsbCall::ControlRead { request_type: t, request: q, value: v, index: i, len: l, timeout: d, .. }
        && t == request_type && q == request && v == value && i == index && l == len && d == timeout
}

/// `after` is `before` with one request added.
pub open spec fn one_request(before: Seq<UsbCall>, after: Seq<UsbCall>) -> bool {
    after.len() > 0 && after == before.push(after.last())
}

/// `r` is the outcome of a request answered `a`: success exactly when the
/// request succeeded, its error otherwise.
pub open spec fn mirrors(r: Result<(), UsbError>, a: Result<usize, UsbError>) -> bool {
    match a {
        Ok(_) => r is Ok,
        Err(e) => r == Err::<(), UsbError>(e),
    }
}

/// `after` is `before` with requests added at its end.
pub open spec fn extends(before: Seq<UsbCall>, after: Seq<UsbCall>) -> bool {
    before.len() <= after.len() && after.subrange(0, before.len() as int) == before
}

/// The requests that `after` adds to `before`.
pub open spec fn added(before: Seq<UsbCall>, after: Seq<UsbCall>) -> Seq<UsbCall> {
    after.subrange(before.len() as int, after.len() as int)
}

/// Adding one request to a history extends it by that request.
pub proof fn lemma_added_push(before: Seq<UsbCall>, after: Seq<UsbCall>, c: UsbCall)
    requires
        extends(before, after),
    ensures
        extends(before, after.push(c)),
        added(before, after.push(c)) == added(before, after).push(c),
{
    assert(after.push(c).subrange(0, before.len() as int) =~= after.subrange(0, before.len() as int));
    assert(added(before, after.push(c)) =~= added(before, after).push(c));
}

/// Extending an extension extends the original.
pub proof fn lemma_extends_trans(a: Seq<UsbCall>, b: Seq<UsbCall>, c: Seq<UsbCall>)
    requires
        extends(a, b),
        extends(b, c),
    ensures
        extends(a, c),
{
    assert(c.subrange(0, a.len() as int) =~= c.subrange(0, b.len() as int).subrange(0, a.len() as int));
}

/// What a history adds is kept when it is extended further.
pub proof fn lemma_added_prefix(h0: Seq<UsbCall>, h1: Seq<UsbCall>, h2: Seq<UsbCall>, i: int)
    requires
        extends(h0, h1),
        extends(h1, h2),
        0 <= i < added(h0, h1).len(),
    ensures
        extends(h0, h2),
        added(h0, h2).len() >= added(h0, h1).len(),
        added(h0, h2)[i] == added(h0, h1)[i],
{
    lemma_extends_trans(h0, h1, h2);
    assert(h2[h0.len() + i] == h2.subrange(0, h1.len() as int)[h0.len() + i]);
}

/// What a history adds over two extensions is what each adds, in order.
pub proof fn lemma_added_concat(h0: Seq<UsbCall>, h1: Seq<UsbCall>, h2: Seq<UsbCall>)
    requires
        extends(h0, h1),
        extends(h1, h2),
    ensures
        extends(h0, h2),
        added(h0, h2) == added(h0, h1) + added(h1, h2),
{
    lemma_extends_trans(h0, h1, h2);
    assert forall|i: int| 0 <= i < added(h0, h1).len() implies added(h0, h2)[i] == added(h0, h1)[i] by {
        assert(h2[h0.len() + i] == h2.subrange(0, h1.len() as int)[h0.len() + i]);
    }
    assert(added(h0, h2) =~= added(h0, h1) + added(h1, h2));
}

/// A history extends itself with nothing added.
pub proof fn lemma_extends_refl(h: Seq<UsbCall>)
    ensures
        extends(h, h),
        added(h, h) == Seq::<UsbCall>::empty(),
{
    assert(h.subrange(0, h.len() as int) =~= h);
    assert(added(h, h) =~= Seq::<UsbCall>::empty());
}

/// The history of requests made through a handle. It exists only in
/// specifications: code never computes it.
pub type CallHistory = Seq<UsbCall>;

/// The capabilities of an opened USB device that the transfer helpers and
/// protocol clients are built on. The transport (a native USB library, or a
/// test double) implements it.
///
/// `calls` is the history of the requests made through the handle; each
/// method adds its own request and answer to it. A transfer reports how
/// many bytes it moved, never more than the buffer that was handed to it.
pub trait DeviceHandle {
    /// The requests made through the handle so far. A specification-only
    /// member: nothing calls it at run time, so an implementation outside
    /// verified code may leave its body unreachable.
    spec fn calls(&self) -> CallHistory;

    fn bulk_read(&mut self, endpoint: u8, buf: &mut [u8], timeout: Duration) -> (r: Result<usize, UsbError>)
        ensures
            final(buf)@.len() == old(buf)@.len(),
            r matches Ok(n) ==> n <= old(buf)@.len(),
            final(self).calls() == old(self).calls().push(
                UsbCall::BulkRead { endpoint, len: old(buf)@.len() as usize, timeout, result: r, data: final(buf)@ },
            ),
    ;

    fn bulk_write(&mut self, endpoint: u8, buf: &[u8], timeout: Duration) -> (r: Result<usize, UsbError>)
        ensures
            r matches Ok(n) ==> n <= buf@.len(),
            final(self).calls() == old(self).calls().push(UsbCall::BulkWrite { endpoint, data: buf@, timeout, result: r }),
    ;

    fn control_read(
        &mut self,
        request_type: u8,
        request: u8,
        value: u16,
        index: u16,
        buf: &mut [u8],
        timeout: Duration,
    ) -> (r: Result<usize, UsbError>)
        ensures
            final(buf)@.len() == old(buf)@.len(),
            r matches Ok(n) ==> n <= old(buf)@.len(),
            final(self).calls() == old(self).calls().push(
                UsbCall::ControlRead {
                    request_type,
                    request,
                    value,
                    index,
                    len: old(buf)@.len() as usize,
                    timeout,
                    result: r,
                    data: final(buf)@,
                },
            ),
    ;

    fn control_write(
        &mut self,
        request_type: u8,
        request: u8,
        value: u16,
        index: u16,
        buf: &[u8],
        timeout: Duration,
    ) -> (r: Result<usize, UsbError>)
        ensures
            r matches Ok(n) ==> n <= buf@.len(),
            final(self).calls() == old(self).calls().push(
                UsbCall::ControlWrite { request_type, request, value, index, data: buf@, timeout, result: r },
            ),
    ;

    fn interrupt_read(&mut self, endpoint: u8, buf: &mut [u8], timeout: Duration) -> (r: Result<usize, UsbError>)
        ensures
            final(buf)@.len() == old(buf)@.len(),
            r matches Ok(n) ==> n <= old(buf)@.len(),
            final(self).calls() == old(self).calls().push(
                UsbCall::InterruptRead { endpoint, len: old(buf)@.len() as usize, timeout, result: r, data: final(buf)@ },
            ),
    ;

    fn interrupt_write(&mut self, endpoint: u8, buf: &[u8], timeout: Duration) -> (r: Result<usize, UsbError>)
        ensures
            r matches Ok(n) ==> n <= buf@.len(),
            final(self).calls() == old(self).calls().push(UsbCall::InterruptWrite { endpoint, data: buf@, timeout, result: r }),
    ;

    /// Blocks the calling thread for `ms` milliseconds (retry back-off and
    /// device-requested poll intervals).
    fn pause(&mut self, ms: u64)
        ensures
            final(self).calls() == old(self).calls().push(UsbCall::Pause { ms }),
    ;
}

} // verus!

verus! {

/// Relies on `Duration::from_millis`: a span of `ms` milliseconds.
#[verifier::external_body]
pub(crate) fn millis(ms: u64) -> (r: Duration) {
    Duration::from_millis(ms)
}

/// A point in time of the monotonic clock.
#[verifier::external_type_specification]
#[verifier::external_body]
pub struct ExInstant(Instant);

/// Relies on `Instant::now`: the current time; nothing is known of it.
#[verifier::external_body]
pub(crate) fn now() -> (r: Instant) {
    Instant::now()
}

/// Relies on `Instant::elapsed`: the time since `start`; nothing is known
/// of it.
#[verifier::external_body]
pub(crate) fn elapsed(start: &Instant) -> (r: Duration) {
    start.elapsed()
}

/// The outcome of one timed transfer.
#[derive(Debug)]
pub struct TransferResult {
    pub success: bool,
    /// Bytes moved; zero on failure.
    pub bytes_transferred: usize,
    /// The error's message on failure.
    pub error: Option<String>,
    /// Time the transfer took.
    pub duration: Duration,
}

impl TransferResult {
    pub fn success(bytes: usize, duration: Duration) -> (r: Self)
        ensures
            r.success,
            r.bytes_transferred == bytes,
            r.error is None,
            r.duration == duration,
    {
        TransferResult { success: true, bytes_transferred: bytes, error: None, duration }
    }

    pub fn failure(error: String, duration: Duration) -> (r: Self)
        ensures
            !r.success,
            r.bytes_transferred == 0,
            r.error == Some(error),
            r.duration == duration,
    {
        TransferResult { success: false, bytes_transferred: 0, error: Some(error), duration }
    }
}

/// Default timeout of a transfer, in milliseconds.
pub const DEFAULT_TIMEOUT_MS: u64 = 1000;

/// Default number of retries of a bulk transfer.
pub const MAX_RETRIES: u32 = 3;

} // verus!
