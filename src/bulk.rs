//! Bulk transfers: retry with linear back-off, chunked writes, exact-size
//! reads, and a buffered reader and writer.
use crate::chunks::block_end;
use crate::errors::{is_retryable, spec_is_retryable, UsbError};
use crate::handle::{added, call_data, call_result, mirrors, one_request, extends, lemma_added_concat, lemma_added_push, lemma_extends_refl, lemma_extends_trans, elapsed, millis, now, DeviceHandle, TransferResult, UsbCall, DEFAULT_TIMEOUT_MS, MAX_RETRIES};
use crate::text::utf8_decode;
use std::time::Duration;
use vstd::prelude::*;
use vstd::string::StringSliceAdditionalSpecFns;
use vstd::utf8::{decode_utf8, valid_utf8};

verus! {

broadcast use vstd::string::to_string_from_display_ensures_for_str;

/// Milliseconds of back-off per attempt made so far.
pub const BACKOFF_STEP_MS: u64 = 10;

/// The back-off before the retry that follows failed attempt `attempt`
/// (counted from zero), or `None` when the error is to be surfaced.
pub open spec fn spec_retry_delay(attempt: u32, max_retries: u32, e: UsbError) -> Option<u64> {
    if attempt < max_retries && spec_is_retryable(e) {
        Some((BACKOFF_STEP_MS * (attempt + 1)) as u64)
    } else {
        None
    }
}

/// Retry decision after a failed attempt: retry a retryable error while
/// attempts remain, after `10 ms × (attempt + 1)`; surface anything else.
pub fn retry_delay(attempt: u32, max_retries: u32, e: &UsbError) -> (r: Option<u64>)
    ensures
        r == spec_retry_delay(attempt, max_retries, *e),
{
    if attempt < max_retries && is_retryable(e) {
        Some(BACKOFF_STEP_MS * (attempt as u64 + 1))
    } else {
        None
    }
}

/// `c` is the request `t` (same kind, endpoint, length or data, and
/// timeout), whatever its answer.
pub open spec fn same_request(c: UsbCall, t: UsbCall) -> bool {
    match (c, t) {
        (UsbCall::BulkRead { endpoint: e1, len: l1, timeout: d1, .. }, UsbCall::BulkRead { endpoint: e2, len: l2, timeout: d2, .. }) =>
            e1 == e2 && l1 == l2 && d1 == d2,
        (UsbCall::BulkWrite { endpoint: e1, data: x1, timeout: d1, .. }, UsbCall::BulkWrite { endpoint: e2, data: x2, timeout: d2, .. }) =>
            e1 == e2 && x1 == x2 && d1 == d2,
        _ => false,
    }
}

/// Attempt `i` of `calls` (at position `2i`) is request `t`, failed, and
/// was retried: the back-off pause follows it.
pub open spec fn retried_at(calls: Seq<UsbCall>, i: int, max_retries: u32, t: UsbCall) -> bool {
    &&& same_request(calls[2 * i], t)
    &&& call_result(calls[2 * i]) is Err
    &&& spec_retry_delay(i as u32, max_retries, call_result(calls[2 * i])->Err_0) matches Some(ms)
        && calls[2 * i + 1] == (UsbCall::Pause { ms })
}

/// `calls` are the requests of one transfer under the retry policy: request
/// `t` tried again after each retried failure and its pause, ending with
/// the attempt whose answer is returned (a success, or a failure the policy
/// does not retry).
pub open spec fn retry_trace(calls: Seq<UsbCall>, max_retries: u32, t: UsbCall) -> bool {
    let m = calls.len() / 2;
    &&& calls.len() % 2 == 1
    &&& m <= max_retries
    &&& forall|i: int| 0 <= i < m ==> #[trigger] retried_at(calls, i, max_retries, t)
    &&& same_request(calls.last(), t)
    &&& (call_result(calls.last()) matches Err(e) ==> spec_retry_delay(m as u32, max_retries, e) is None)
}

/// A device that answers the first `n` attempts of a transfer with
/// retryable errors and every later one with success: with at least `n`
/// retries the transfer makes `n + 1` attempts and succeeds; with fewer it
/// makes `max_retries + 1` attempts and returns the last one's error.
pub proof fn retry_trace_after_failures(calls: Seq<UsbCall>, n: nat, max_retries: u32, t: UsbCall)
    requires
        retry_trace(calls, max_retries, t),
        forall|j: int| 0 <= j < calls.len() && j % 2 == 0 && j / 2 < n ==> (#[trigger] call_result(calls[j])) is Err
            && spec_is_retryable(call_result(calls[j])->Err_0),
        forall|j: int| 0 <= j < calls.len() && j % 2 == 0 && j / 2 >= n ==> (#[trigger] call_result(calls[j])) is Ok,
    ensures
        n <= max_retries ==> calls.len() == 2 * n + 1 && call_result(calls.last()) is Ok,
        n > max_retries ==> calls.len() == 2 * max_retries + 1 && call_result(calls.last()) is Err,
{
    let m = calls.len() / 2;
    let last = calls.len() - 1;
    assert(last == 2 * m && last % 2 == 0);
    assert(last / 2 == m);
    if m < n {
        assert(call_result(calls[last]) is Err && spec_is_retryable(call_result(calls[last])->Err_0));
    } else if m > n {
        assert(retried_at(calls, n as int, max_retries, t));
        assert(call_result(calls[2 * n as int]) is Ok);
    }
}

/// A write that the device accepted only in part.
pub open spec fn short_write(c: UsbCall) -> bool {
    c is BulkWrite && (call_result(c) matches Ok(w) && w < call_data(c).len())
}

/// The bytes a write request had accepted (none for any other request).
pub open spec fn accepted_by(c: UsbCall) -> nat {
    if c is BulkWrite && call_result(c) is Ok { call_result(c)->Ok_0 as nat } else { 0 }
}

/// The bytes that the write requests of `calls` had accepted in all.
pub open spec fn accepted(calls: Seq<UsbCall>) -> nat
    decreases calls.len(),
{
    if calls.len() == 0 { 0 } else { accepted(calls.drop_last()) + accepted_by(calls.last()) }
}

proof fn lemma_accepted_concat(p: Seq<UsbCall>, w: Seq<UsbCall>)
    ensures
        accepted(p + w) == accepted(p) + accepted(w),
    decreases w.len(),
{
    if w.len() == 0 {
        assert(p + w =~= p);
    } else {
        lemma_accepted_concat(p, w.drop_last());
        assert((p + w).drop_last() =~= p + w.drop_last());
    }
}

/// Requests that accepted nothing add nothing.
proof fn lemma_accepted_zero(w: Seq<UsbCall>)
    requires
        forall|i: int| 0 <= i < w.len() ==> accepted_by(#[trigger] w[i]) == 0,
    ensures
        accepted(w) == 0,
    decreases w.len(),
{
    if w.len() > 0 {
        assert forall|i: int| 0 <= i < w.drop_last().len() implies accepted_by(#[trigger] w.drop_last()[i]) == 0 by {
            assert(w.drop_last()[i] == w[i]);
        }
        lemma_accepted_zero(w.drop_last());
    }
}

/// The requests `a` and result `r` of a chunked write of `len` bytes: only
/// pauses and writes of at most `chunk_size` bytes, no partial write but
/// possibly the last request, the bytes accepted in all, which are the
/// whole length unless the last write was partial, or the last request's
/// error.
pub open spec fn chunked_outcome(a: Seq<UsbCall>, endpoint: u8, chunk_size: usize, len: nat, r: Result<usize, UsbError>) -> bool {
    &&& forall|i: int| 0 <= i < a.len() ==> (#[trigger] a[i]) is Pause || (a[i] matches UsbCall::BulkWrite {
        endpoint: e,
        data,
        ..
    } && e == out_endpoint(endpoint) && data.len() <= chunk_size)
    &&& forall|i: int| 0 <= i < a.len() - 1 ==> !short_write(#[trigger] a[i])
    &&& r matches Ok(n) ==> n == accepted(a) && (n == len || short_write(a.last()))
    &&& r matches Err(e) ==> a.len() > 0 && call_result(a.last()) == Err::<usize, UsbError>(e)
}

/// The bytes a read request received (none for any other request).
pub open spec fn received_by(c: UsbCall) -> Seq<u8> {
    if c is BulkRead && call_result(c) is Ok {
        call_data(c).subrange(0, call_result(c)->Ok_0 as int)
    } else {
        Seq::empty()
    }
}

/// The bytes that the read requests of `calls` received, one after another.
pub open spec fn received_reads(calls: Seq<UsbCall>) -> Seq<u8>
    decreases calls.len(),
{
    if calls.len() == 0 { Seq::empty() } else { received_reads(calls.drop_last()) + received_by(calls.last()) }
}

proof fn lemma_received_concat(p: Seq<UsbCall>, w: Seq<UsbCall>)
    ensures
        received_reads(p + w) == received_reads(p) + received_reads(w),
    decreases w.len(),
{
    if w.len() == 0 {
        assert(p + w =~= p);
        assert(received_reads(p) + received_reads(w) =~= received_reads(p));
    } else {
        lemma_received_concat(p, w.drop_last());
        assert((p + w).drop_last() =~= p + w.drop_last());
        assert(received_reads(p + w) =~= received_reads(p) + received_reads(w));
    }
}

/// Requests that received nothing add nothing.
proof fn lemma_received_none(w: Seq<UsbCall>)
    requires
        forall|i: int| 0 <= i < w.len() ==> received_by(#[trigger] w[i]) == Seq::<u8>::empty(),
    ensures
        received_reads(w) == Seq::<u8>::empty(),
    decreases w.len(),
{
    if w.len() > 0 {
        assert forall|i: int| 0 <= i < w.drop_last().len() implies received_by(#[trigger] w.drop_last()[i])
            == Seq::<u8>::empty() by {
            assert(w.drop_last()[i] == w[i]);
        }
        lemma_received_none(w.drop_last());
        assert(received_reads(w) =~= Seq::<u8>::empty() + received_by(w.last()));
    }
}

/// A retried read received only what its last attempt did.
proof fn lemma_read_trace(calls: Seq<UsbCall>, max_retries: u32, t: UsbCall)
    requires
        retry_trace(calls, max_retries, t),
        t is BulkRead,
    ensures
        received_reads(calls) == received_by(calls.last()),
{
    let p = calls.drop_last();
    assert forall|i: int| 0 <= i < p.len() implies received_by(#[trigger] p[i]) == Seq::<u8>::empty() by {
        assert(p[i] == calls[i]);
        if i % 2 == 0 {
            assert(retried_at(calls, i / 2, max_retries, t));
            assert(2 * (i / 2) == i);
        } else {
            assert(retried_at(calls, i / 2, max_retries, t));
            assert(2 * (i / 2) + 1 == i);
        }
    }
    lemma_received_none(p);
    assert(received_reads(calls) =~= Seq::<u8>::empty() + received_by(calls.last()));
}

/// `c` is a back-off pause, or a write of `data` to `endpoint`.
pub open spec fn pause_or_write(c: UsbCall, endpoint: u8, data: Seq<u8>) -> bool {
    c is Pause || (c matches UsbCall::BulkWrite { endpoint: e, data: d, .. } && e == endpoint && d == data)
}

/// The requests of a retried write are its attempts and pauses; no
/// attempt before the last is a partial write.
proof fn lemma_write_trace(calls: Seq<UsbCall>, max_retries: u32, t: UsbCall, endpoint: u8, data: Seq<u8>)
    requires
        retry_trace(calls, max_retries, t),
        t matches UsbCall::BulkWrite { endpoint: e, data: d, .. } && e == endpoint && d == data,
    ensures
        forall|i: int| 0 <= i < calls.len() ==> pause_or_write(#[trigger] calls[i], endpoint, data),
        forall|i: int| 0 <= i < calls.len() - 1 ==> !short_write(#[trigger] calls[i]),
        calls.len() > 0 && calls.last() is BulkWrite && call_data(calls.last()) == data,
        accepted(calls) == accepted_by(calls.last()),
{
    let m = calls.len() / 2;
    assert forall|i: int| 0 <= i < calls.len() implies pause_or_write(#[trigger] calls[i], endpoint, data)
        && (i < calls.len() - 1 ==> !short_write(calls[i])) by {
        if i == calls.len() - 1 {
        } else if i % 2 == 0 {
            assert(retried_at(calls, i / 2, max_retries, t));
            assert(2 * (i / 2) == i);
        } else {
            assert(retried_at(calls, i / 2, max_retries, t));
            assert(2 * (i / 2) + 1 == i);
        }
    }
    let p = calls.drop_last();
    assert forall|i: int| 0 <= i < p.len() implies accepted_by(#[trigger] p[i]) == 0 by {
        assert(p[i] == calls[i]);
        if i % 2 == 0 {
            assert(retried_at(calls, i / 2, max_retries, t));
            assert(2 * (i / 2) == i);
        } else {
            assert(retried_at(calls, i / 2, max_retries, t));
            assert(2 * (i / 2) + 1 == i);
        }
    }
    lemma_accepted_zero(p);
}

/// How an exact-size read ends.
pub enum ExactEnd {
    /// The buffer is full.
    Filled,
    /// A read returned no bytes before the buffer was full.
    ShortRead,
    /// A read failed, and the retry policy gave up, with this error.
    Failed(UsbError),
}

/// Where an exact-size read stands after the requests so far.
pub enum ExactStep {
    /// The next read attempt, `filled` bytes having arrived; `attempt`
    /// counts the failed attempts of this read.
    Read { filled: nat, attempt: nat },
    /// The back-off pause of `ms` before the next attempt.
    Backoff { filled: nat, attempt: nat, ms: u64 },
    Done(ExactEnd),
    Invalid,
}

/// What an exact-size read works with: the IN endpoint, the buffer
/// length, the most bytes per read, the timeout and the retry count.
pub struct ExactContext {
    pub endpoint: u8,
    pub total: nat,
    pub chunk: nat,
    pub timeout: Duration,
    pub max_retries: u32,
}

/// The length of the read that follows once `filled` bytes arrived.
pub open spec fn exact_len(x: ExactContext, filled: nat) -> nat {
    if x.total - filled < x.chunk { (x.total - filled) as nat } else { x.chunk }
}

/// The step after request `c` from step `st`.
pub open spec fn exact_step(st: ExactStep, c: UsbCall, x: ExactContext) -> ExactStep {
    match st {
        ExactStep::Read { filled, attempt } => if c matches UsbCall::BulkRead { endpoint, len, timeout, .. }
            && endpoint == x.endpoint && len == exact_len(x, filled) && timeout == x.timeout {
            match call_result(c) {
                Err(e) => if attempt <= u32::MAX && spec_retry_delay(attempt as u32, x.max_retries, e) is Some {
                    ExactStep::Backoff { filled, attempt, ms: spec_retry_delay(attempt as u32, x.max_retries, e)->0 }
                } else {
                    ExactStep::Done(ExactEnd::Failed(e))
                },
                Ok(n) => if n == 0 {
                    ExactStep::Done(ExactEnd::ShortRead)
                } else if filled + n >= x.total {
                    ExactStep::Done(ExactEnd::Filled)
                } else {
                    ExactStep::Read { filled: (filled + n) as nat, attempt: 0 }
                },
            }
        } else {
            ExactStep::Invalid
        },
        ExactStep::Backoff { filled, attempt, ms } => if c == (UsbCall::Pause { ms }) {
            ExactStep::Read { filled, attempt: attempt + 1 }
        } else {
            ExactStep::Invalid
        },
        _ => ExactStep::Invalid,
    }
}

/// The step reached from `st` after the requests `calls`.
pub open spec fn exact_run(st: ExactStep, calls: Seq<UsbCall>, x: ExactContext) -> ExactStep
    decreases calls.len(),
{
    if calls.len() == 0 { st } else { exact_step(exact_run(st, calls.drop_last(), x), calls.last(), x) }
}

/// `st` is the end of an exact-size read that returned `r`.
pub open spec fn exact_ends_as(st: ExactStep, r: Result<(), UsbError>) -> bool {
    match st {
        ExactStep::Done(ExactEnd::Filled) => r is Ok,
        ExactStep::Done(ExactEnd::ShortRead) => r matches Err(UsbError::Unknown(m)) && m@ == "Short read"@,
        ExactStep::Done(ExactEnd::Failed(e)) => r == Err::<(), UsbError>(e),
        _ => false,
    }
}

proof fn lemma_exact_concat(st: ExactStep, a: Seq<UsbCall>, b: Seq<UsbCall>, x: ExactContext)
    ensures
        exact_run(st, a + b, x) == exact_run(exact_run(st, a, x), b, x),
    decreases b.len(),
{
    if b.len() == 0 {
        assert(a + b =~= a);
    } else {
        lemma_exact_concat(st, a, b.drop_last(), x);
        assert((a + b).drop_last() =~= a + b.drop_last());
    }
}

/// The retried attempts of one read walk an exact-size read through its
/// back-off pauses.
proof fn lemma_exact_attempts(w: Seq<UsbCall>, i: nat, filled: nat, x: ExactContext, t: UsbCall)
    requires
        retry_trace(w, x.max_retries, t),
        t matches UsbCall::BulkRead { endpoint, len, timeout, .. } && endpoint == x.endpoint && len == exact_len(
            x,
            filled,
        ) && timeout == x.timeout,
        i <= w.len() / 2,
    ensures
        exact_run(ExactStep::Read { filled, attempt: 0 }, w.subrange(0, 2 * i as int), x) == (ExactStep::Read {
            filled,
            attempt: i,
        }),
    decreases i,
{
    if i == 0 {
        assert(w.subrange(0, 0) =~= Seq::<UsbCall>::empty());
    } else {
        let j = (i - 1) as nat;
        lemma_exact_attempts(w, j, filled, x, t);
        assert(retried_at(w, j as int, x.max_retries, t));
        let p = w.subrange(0, 2 * j as int);
        let q = w.subrange(0, 2 * j as int + 1);
        assert(q.drop_last() =~= p);
        assert(q.last() == w[2 * j as int]);
        assert(w.subrange(0, 2 * i as int).drop_last() =~= q);
        assert(w.subrange(0, 2 * i as int).last() == w[2 * j as int + 1]);
        let c = w[2 * j as int];
        assert(same_request(c, t));
        assert(c is BulkRead);
        assert(j < x.max_retries);
        let e = call_result(c)->Err_0;
        let ms = spec_retry_delay(j as u32, x.max_retries, e)->0;
        assert(w[2 * j as int + 1] == UsbCall::Pause { ms });
        assert(exact_step(ExactStep::Read { filled, attempt: j }, c, x) == (ExactStep::Backoff { filled, attempt: j, ms }));
        assert(exact_run(ExactStep::Read { filled, attempt: 0 }, q, x) == (ExactStep::Backoff { filled, attempt: j, ms }));
    }
}

/// One retried read of an exact-size read: the step it reaches.
proof fn lemma_exact_read(w: Seq<UsbCall>, filled: nat, x: ExactContext, t: UsbCall)
    requires
        retry_trace(w, x.max_retries, t),
        t matches UsbCall::BulkRead { endpoint, len, timeout, .. } && endpoint == x.endpoint && len == exact_len(
            x,
            filled,
        ) && timeout == x.timeout,
    ensures
        exact_run(ExactStep::Read { filled, attempt: 0 }, w, x) == exact_step(
            ExactStep::Read { filled, attempt: w.len() / 2 },
            w.last(),
            x,
        ),
{
    let m = w.len() / 2;
    lemma_exact_attempts(w, m, filled, x, t);
    assert(w.drop_last() =~= w.subrange(0, 2 * m as int));
}

/// Endpoint address with the IN direction bit set.
pub open spec fn in_endpoint(ep: u8) -> u8 {
    ep | 0x80
}

/// Endpoint address with the direction bit cleared.
pub open spec fn out_endpoint(ep: u8) -> u8 {
    ep & 0x7F
}

/// Bulk transfer helper with timeout, retries and optional chunking.
pub struct BulkTransfer<'a, H: DeviceHandle> {
    handle: &'a mut H,
    timeout: Duration,
    max_retries: u32,
    chunk_size: Option<usize>,
}

impl<'a, H: DeviceHandle> BulkTransfer<'a, H> {
    pub closed spec fn spec_timeout(&self) -> Duration {
        self.timeout
    }

    pub closed spec fn spec_max_retries(&self) -> u32 {
        self.max_retries
    }

    pub closed spec fn spec_chunk_size(&self) -> Option<usize> {
        self.chunk_size
    }

    /// The requests made through the device handle so far.
    pub closed spec fn calls(&self) -> Seq<UsbCall> {
        self.handle.calls()
    }

    /// The request of one read attempt into a buffer of `len` bytes.
    pub open spec fn read_request(&self, endpoint: u8, len: usize) -> UsbCall {
        UsbCall::BulkRead { endpoint: in_endpoint(endpoint), len, timeout: self.spec_timeout(), result: Ok(0), data: Seq::empty() }
    }

    /// The context of an exact-size read of `total` bytes from `endpoint`.
    pub open spec fn exact_context(&self, endpoint: u8, total: nat) -> ExactContext {
        ExactContext {
            endpoint: in_endpoint(endpoint),
            total,
            chunk: match self.spec_chunk_size() {
                Some(c) => c as nat,
                None => total,
            },
            timeout: self.spec_timeout(),
            max_retries: self.spec_max_retries(),
        }
    }

    /// The request of one write attempt of `data`.
    pub open spec fn write_request(&self, endpoint: u8, data: Seq<u8>) -> UsbCall {
        UsbCall::BulkWrite { endpoint: out_endpoint(endpoint), data, timeout: self.spec_timeout(), result: Ok(0) }
    }

    /// Timeout, retries and chunk size of `self` and `other` agree.
    pub open spec fn same_config(&self, other: &Self) -> bool {
        &&& self.spec_timeout() == other.spec_timeout()
        &&& self.spec_max_retries() == other.spec_max_retries()
        &&& self.spec_chunk_size() == other.spec_chunk_size()
    }

    /// Default timeout and retries, no chunking.
    pub fn new(handle: &'a mut H) -> (r: Self)
        ensures
            r.spec_max_retries() == MAX_RETRIES,
            r.spec_chunk_size() is None,
            r.calls() == old(handle).calls(),
    {
        BulkTransfer { handle, timeout: millis(DEFAULT_TIMEOUT_MS), max_retries: MAX_RETRIES, chunk_size: None }
    }

    pub fn with_timeout(self, timeout: Duration) -> (r: Self)
        ensures
            r.spec_timeout() == timeout,
            r.spec_max_retries() == self.spec_max_retries(),
            r.spec_chunk_size() == self.spec_chunk_size(),
            r.calls() == self.calls(),
    {
        BulkTransfer { timeout, ..self }
    }

    pub fn with_retries(self, retries: u32) -> (r: Self)
        ensures
            r.spec_timeout() == self.spec_timeout(),
            r.spec_max_retries() == retries,
            r.spec_chunk_size() == self.spec_chunk_size(),
            r.calls() == self.calls(),
    {
        BulkTransfer { max_retries: retries, ..self }
    }

    pub fn with_chunk_size(self, size: usize) -> (r: Self)
        ensures
            r.spec_timeout() == self.spec_timeout(),
            r.spec_max_retries() == self.spec_max_retries(),
            r.spec_chunk_size() == Some(size),
            r.calls() == self.calls(),
    {
        BulkTransfer { chunk_size: Some(size), ..self }
    }

    /// Reads from the IN endpoint, retrying retryable errors up to the
    /// configured count with linear back-off. The requests made are one
    /// retried transfer of that read; the answer returned, and the buffer,
    /// are those of the last attempt.
    pub fn read(&mut self, endpoint: u8, buf: &mut [u8]) -> (r: Result<usize, UsbError>)
        ensures
            final(buf)@.len() == old(buf)@.len(),
            r matches Ok(n) ==> n <= old(buf)@.len(),
            final(self).same_config(old(self)),
            extends(old(self).calls(), final(self).calls()),
            retry_trace(
                added(old(self).calls(), final(self).calls()),
                old(self).spec_max_retries(),
                old(self).read_request(endpoint, old(buf)@.len() as usize),
            ),
            r == call_result(added(old(self).calls(), final(self).calls()).last()),
            final(buf)@ == call_data(added(old(self).calls(), final(self).calls()).last()),
    {
        let ghost t = self.read_request(endpoint, buf@.len() as usize);
        let ghost h0 = self.calls();
        proof {
            lemma_extends_refl(h0);
        }
        let mut attempt: u32 = 0;
        loop
            invariant
                buf@.len() == old(buf)@.len(),
                self.same_config(old(self)),
                h0 == old(self).calls(),
                t == old(self).read_request(endpoint, old(buf)@.len() as usize),
                attempt <= self.max_retries,
                extends(h0, self.calls()),
                added(h0, self.calls()).len() == 2 * attempt,
                forall|i: int| 0 <= i < attempt ==> #[trigger] retried_at(added(h0, self.calls()), i, self.max_retries, t),
            decreases self.max_retries - attempt,
        {
            let ghost before = self.calls();
            let res = self.handle.bulk_read(endpoint | 0x80, buf, self.timeout);
            let ghost c = UsbCall::BulkRead { endpoint: endpoint | 0x80, len: buf@.len() as usize, timeout: self.timeout, result: res, data: buf@ };
            proof {
                lemma_added_push(h0, before, c);
                let p = added(h0, before);
                assert forall|i: int| 0 <= i < attempt implies #[trigger] retried_at(p.push(c), i, self.max_retries, t) by {
                    assert(retried_at(p, i, self.max_retries, t));
                    assert(p.push(c)[2 * i] == p[2 * i]);
                    assert(p.push(c)[2 * i + 1] == p[2 * i + 1]);
                }
            }
            match res {
                Ok(n) => return Ok(n),
                Err(e) => match retry_delay(attempt, self.max_retries, &e) {
                    Some(ms) => {
                        let ghost mid = self.calls();
                        self.handle.pause(ms);
                        proof {
                            lemma_added_push(h0, mid, UsbCall::Pause { ms });
                            let p = added(h0, mid);
                            let q = p.push(UsbCall::Pause { ms });
                            assert forall|i: int| 0 <= i < attempt + 1 implies #[trigger] retried_at(q, i, self.max_retries, t) by {
                                if i < attempt {
                                    assert(retried_at(p, i, self.max_retries, t));
                                    assert(q[2 * i] == p[2 * i]);
                                    assert(q[2 * i + 1] == p[2 * i + 1]);
                                } else {
                                    assert(q[2 * i] == c);
                                }
                            }
                        }
                        attempt = attempt + 1;
                    },
                    None => return Err(e),
                },
            }
        }
    }

    /// Writes `buf` to the OUT endpoint: in one transfer under the retry
    /// policy, or chunk by chunk when a chunk size is set.
    pub fn write(&mut self, endpoint: u8, buf: &[u8]) -> (r: Result<usize, UsbError>)
        requires
            old(self).spec_chunk_size() != Some(0usize),
        ensures
            r matches Ok(n) ==> n <= buf@.len(),
            final(self).same_config(old(self)),
            extends(old(self).calls(), final(self).calls()),
            old(self).spec_chunk_size() is None ==> {
                &&& retry_trace(
                    added(old(self).calls(), final(self).calls()),
                    old(self).spec_max_retries(),
                    old(self).write_request(endpoint, buf@),
                )
                &&& r == call_result(added(old(self).calls(), final(self).calls()).last())
            },
            buf@.len() == 0 && old(self).spec_chunk_size() is Some ==> r == Ok::<usize, UsbError>(0)
                && final(self).calls() == old(self).calls(),
            old(self).spec_chunk_size() matches Some(c) ==> chunked_outcome(
                added(old(self).calls(), final(self).calls()),
                endpoint,
                c,
                buf@.len(),
                r,
            ),
    {
        match self.chunk_size {
            Some(size) => self.write_chunked(endpoint, buf, size),
            None => self.write_single(endpoint, buf),
        }
    }

    /// One write with the retry policy of `read`.
    fn write_single(&mut self, endpoint: u8, buf: &[u8]) -> (r: Result<usize, UsbError>)
        ensures
            r matches Ok(n) ==> n <= buf@.len(),
            final(self).same_config(old(self)),
            extends(old(self).calls(), final(self).calls()),
            retry_trace(
                added(old(self).calls(), final(self).calls()),
                old(self).spec_max_retries(),
                old(self).write_request(endpoint, buf@),
            ),
            r == call_result(added(old(self).calls(), final(self).calls()).last()),
    {
        let ghost t = self.write_request(endpoint, buf@);
        let ghost h0 = self.calls();
        proof {
            lemma_extends_refl(h0);
        }
        let mut attempt: u32 = 0;
        loop
            invariant
                self.same_config(old(self)),
                h0 == old(self).calls(),
                t == old(self).write_request(endpoint, buf@),
                attempt <= self.max_retries,
                extends(h0, self.calls()),
                added(h0, self.calls()).len() == 2 * attempt,
                forall|i: int| 0 <= i < attempt ==> #[trigger] retried_at(added(h0, self.calls()), i, self.max_retries, t),
            decreases self.max_retries - attempt,
        {
            let ghost before = self.calls();
            let res = self.handle.bulk_write(endpoint & 0x7F, buf, self.timeout);
            let ghost c = UsbCall::BulkWrite { endpoint: endpoint & 0x7F, data: buf@, timeout: self.timeout, result: res };
            proof {
                lemma_added_push(h0, before, c);
                let p = added(h0, before);
                assert forall|i: int| 0 <= i < attempt implies #[trigger] retried_at(p.push(c), i, self.max_retries, t) by {
                    assert(retried_at(p, i, self.max_retries, t));
                    assert(p.push(c)[2 * i] == p[2 * i]);
                    assert(p.push(c)[2 * i + 1] == p[2 * i + 1]);
                }
            }
            match res {
                Ok(n) => return Ok(n),
                Err(e) => match retry_delay(attempt, self.max_retries, &e) {
                    Some(ms) => {
                        let ghost mid = self.calls();
                        self.handle.pause(ms);
                        proof {
                            lemma_added_push(h0, mid, UsbCall::Pause { ms });
                            let p = added(h0, mid);
                            let q = p.push(UsbCall::Pause { ms });
                            assert forall|i: int| 0 <= i < attempt + 1 implies #[trigger] retried_at(q, i, self.max_retries, t) by {
                                if i < attempt {
                                    assert(retried_at(p, i, self.max_retries, t));
                                    assert(q[2 * i] == p[2 * i]);
                                    assert(q[2 * i + 1] == p[2 * i + 1]);
                                } else {
                                    assert(q[2 * i] == c);
                                }
                            }
                        }
                        attempt = attempt + 1;
                    },
                    None => return Err(e),
                },
            }
        }
    }

    /// Writes `buf` in consecutive chunks of `chunk_size` bytes (the last
    /// may be shorter), each under the retry policy, stopping after the
    /// first chunk that the device accepts only in part. Every write carries
    /// at most `chunk_size` bytes; only the last request can be a partial
    /// write; the result is the whole length unless that last write was
    /// partial, and an error is the last request's.
    pub fn write_chunked(&mut self, endpoint: u8, buf: &[u8], chunk_size: usize) -> (r: Result<usize, UsbError>)
        requires
            chunk_size > 0,
        ensures
            r matches Ok(n) ==> n <= buf@.len(),
            final(self).same_config(old(self)),
            extends(old(self).calls(), final(self).calls()),
            buf@.len() == 0 ==> r == Ok::<usize, UsbError>(0) && final(self).calls() == old(self).calls(),
            chunked_outcome(added(old(self).calls(), final(self).calls()), endpoint, chunk_size, buf@.len(), r),
    {
        let ghost h0 = self.calls();
        proof {
            lemma_extends_refl(h0);
        }
        let mut total: usize = 0;
        let mut offset: usize = 0;
        while offset < buf.len()
            invariant
                offset <= buf@.len(),
                total == offset,
                total == accepted(added(h0, self.calls())),
                chunk_size > 0,
                self.same_config(old(self)),
                h0 == old(self).calls(),
                extends(h0, self.calls()),
                offset == 0 ==> self.calls() == h0,
                forall|i: int| 0 <= i < added(h0, self.calls()).len() ==> (#[trigger] added(h0, self.calls())[i]) is Pause
                    || (added(h0, self.calls())[i] matches UsbCall::BulkWrite { endpoint: e, data, .. } && e
                    == out_endpoint(endpoint) && data.len() <= chunk_size),
                forall|i: int| 0 <= i < added(h0, self.calls()).len() ==> !short_write(#[trigger] added(h0, self.calls())[i]),
            decreases buf@.len() - offset,
        {
            let end = block_end(buf.len(), offset, chunk_size);
            let len = end - offset;
            let chunk = &buf[offset..end];
            let ghost before = self.calls();
            let res = self.write_single(endpoint, chunk);
            proof {
                let w = added(before, self.calls());
                lemma_write_trace(w, self.max_retries, old(self).write_request(endpoint, chunk@), out_endpoint(endpoint), chunk@);
                lemma_added_concat(h0, before, self.calls());
                let p = added(h0, before);
                let q = added(h0, self.calls());
                assert forall|i: int| 0 <= i < q.len() implies (#[trigger] q[i]) is Pause || (q[i] matches UsbCall::BulkWrite {
                    endpoint: e,
                    data,
                    ..
                } && e == out_endpoint(endpoint) && data.len() <= chunk_size) by {
                    if i < p.len() {
                        assert(q[i] == p[i]);
                    } else {
                        assert(q[i] == w[i - p.len()]);
                        assert(pause_or_write(w[i - p.len()], out_endpoint(endpoint), chunk@));
                    }
                }
                assert forall|i: int| 0 <= i < q.len() - 1 implies !short_write(#[trigger] q[i]) by {
                    if i < p.len() {
                        assert(q[i] == p[i]);
                    } else {
                        assert(q[i] == w[i - p.len()]);
                    }
                }
                assert(q.last() == w.last());
                lemma_accepted_concat(p, w);
            }
            let written = match res {
                Ok(n) => n,
                Err(e) => return Err(e),
            };
            total = total + written;
            offset = end;
            if written < len {
                return Ok(total);
            }
        }
        Ok(total)
    }

    /// Fills `buf` completely by repeated reads (of at most the chunk size
    /// when one is set). A read that returns no bytes before the buffer is
    /// full is an error.
    pub fn read_exact(&mut self, endpoint: u8, buf: &mut [u8]) -> (r: Result<(), UsbError>)
        ensures
            final(buf)@.len() == old(buf)@.len(),
            final(self).same_config(old(self)),
            extends(old(self).calls(), final(self).calls()),
            old(buf)@.len() == 0 ==> r is Ok && final(self).calls() == old(self).calls(),
            r is Ok ==> final(buf)@ == received_reads(added(old(self).calls(), final(self).calls())),
            r is Err ==> added(old(self).calls(), final(self).calls()).len() > 0,
            old(buf)@.len() > 0 ==> exact_ends_as(
                exact_run(
                    ExactStep::Read { filled: 0, attempt: 0 },
                    added(old(self).calls(), final(self).calls()),
                    old(self).exact_context(endpoint, old(buf)@.len()),
                ),
                r,
            ),
    {
        let ghost x = self.exact_context(endpoint, buf@.len());
        let ghost r0 = ExactStep::Read { filled: 0, attempt: 0 };
        let ghost h0 = self.calls();
        proof {
            lemma_extends_refl(h0);
        }
        let total_len = buf.len();
        let chunk_size = match self.chunk_size {
            Some(c) => c,
            None => total_len,
        };
        let mut total: usize = 0;
        while total < total_len
            invariant
                buf@.len() == total_len,
                total_len == old(buf)@.len(),
                total <= total_len,
                self.same_config(old(self)),
                h0 == old(self).calls(),
                extends(h0, self.calls()),
                total_len == 0 ==> self.calls() == old(self).calls(),
                buf@.subrange(0, total as int) == received_reads(added(h0, self.calls())),
                x == old(self).exact_context(endpoint, old(buf)@.len()),
                r0 == (ExactStep::Read { filled: 0, attempt: 0 }),
                chunk_size as nat == x.chunk,
                total < total_len ==> exact_run(r0, added(h0, self.calls()), x) == (ExactStep::Read {
                    filled: total as nat,
                    attempt: 0,
                }),
                total == total_len && total_len > 0 ==> exact_run(r0, added(h0, self.calls()), x) == ExactStep::Done(
                    ExactEnd::Filled,
                ),
            decreases total_len - total,
        {
            let remaining = total_len - total;
            let to_read = if remaining < chunk_size { remaining } else { chunk_size };
            let mut part: Vec<u8> = vec![0u8; to_read];
            let ghost before = self.calls();
            let res = self.read(endpoint, part.as_mut_slice());
            proof {
                let w = added(before, self.calls());
                lemma_read_trace(w, self.max_retries, old(self).read_request(endpoint, to_read));
                lemma_added_concat(h0, before, self.calls());
                lemma_received_concat(added(h0, before), w);
                lemma_exact_read(w, total as nat, x, old(self).read_request(endpoint, to_read));
                lemma_exact_concat(r0, added(h0, before), w, x);
            }
            let got = match res {
                Ok(n) => n,
                Err(e) => return Err(e),
            };
            if got == 0 {
                return Err(UsbError::Unknown("Short read".to_string()));
            }
            let ghost prefix = buf@.subrange(0, total as int);
            let mut i: usize = 0;
            while i < got
                invariant
                    got <= part@.len(),
                    part@.len() == to_read,
                    to_read <= total_len - total,
                    buf@.len() == total_len,
                    i <= got,
                    prefix.len() == total,
                    buf@.subrange(0, total + i) == prefix + part@.subrange(0, i as int),
                decreases got - i,
            {
                let ghost b0 = buf@;
                buf[total + i] = part[i];
                proof {
                    let target = prefix + part@.subrange(0, i + 1);
                    assert forall|j: int| 0 <= j < total + i + 1 implies buf@.subrange(0, total + i + 1)[j] == target[j] by {
                        if j < total + i {
                            assert(b0.subrange(0, total + i)[j] == b0[j]);
                            assert((prefix + part@.subrange(0, i as int))[j] == target[j]);
                        }
                    }
                    assert(buf@.subrange(0, total + i + 1) =~= target);
                }
                i = i + 1;
            }
            total = total + got;
        }
        assert(buf@.subrange(0, total_len as int) =~= buf@);
        Ok(())
    }

    /// `read`, timed, with its outcome as a `TransferResult`.
    pub fn read_with_result(&mut self, endpoint: u8, buf: &mut [u8]) -> (r: TransferResult)
        ensures
            final(buf)@.len() == old(buf)@.len(),
            r.success ==> r.bytes_transferred <= old(buf)@.len(),
    {
        let start = now();
        match self.read(endpoint, buf) {
            Ok(n) => TransferResult::success(n, elapsed(&start)),
            Err(e) => TransferResult::failure(e.message(), elapsed(&start)),
        }
    }

    /// `write`, timed, with its outcome as a `TransferResult`.
    pub fn write_with_result(&mut self, endpoint: u8, buf: &[u8]) -> (r: TransferResult)
        requires
            self.spec_chunk_size() != Some(0usize),
        ensures
            r.success ==> r.bytes_transferred <= buf@.len(),
    {
        let start = now();
        match self.write(endpoint, buf) {
            Ok(n) => TransferResult::success(n, elapsed(&start)),
            Err(e) => TransferResult::failure(e.message(), elapsed(&start)),
        }
    }
}

/// Most device reads that one `read_line` makes.
pub const MAX_LINE_READS: u64 = 0xFFFF_FFFF_FFFF_FFFF;

/// A reader that buffers what the device sends on a bulk IN endpoint.
pub struct BulkReader<'a, H: DeviceHandle> {
    handle: &'a mut H,
    endpoint: u8,
    timeout: Duration,
    buffer: Vec<u8>,
    buffer_pos: usize,
    buffer_len: usize,
}

impl<'a, H: DeviceHandle> BulkReader<'a, H> {
    pub closed spec fn wf(&self) -> bool {
        self.buffer_pos <= self.buffer_len <= self.buffer@.len()
    }

    /// Bytes received and not yet handed out.
    pub closed spec fn pending(&self) -> Seq<u8> {
        self.buffer@.subrange(self.buffer_pos as int, self.buffer_len as int)
    }

    pub closed spec fn spec_endpoint(&self) -> u8 {
        self.endpoint
    }

    pub closed spec fn spec_capacity(&self) -> nat {
        self.buffer@.len()
    }

    /// The requests made through the device handle so far.
    pub closed spec fn calls(&self) -> Seq<UsbCall> {
        self.handle.calls()
    }

    /// A reader on the IN endpoint `endpoint` with a buffer of `buffer_size`.
    pub fn new(handle: &'a mut H, endpoint: u8, buffer_size: usize) -> (r: Self)
        ensures
            r.wf(),
            r.pending() == Seq::<u8>::empty(),
            r.spec_endpoint() == in_endpoint(endpoint),
            r.spec_capacity() == buffer_size,
            r.calls() == old(handle).calls(),
    {
        let r = BulkReader {
            handle,
            endpoint: endpoint | 0x80,
            timeout: millis(DEFAULT_TIMEOUT_MS),
            buffer: vec![0u8; buffer_size],
            buffer_pos: 0,
            buffer_len: 0,
        };
        assert(r.pending() =~= Seq::<u8>::empty());
        r
    }

    pub fn with_timeout(self, timeout: Duration) -> (r: Self)
        requires
            self.wf(),
        ensures
            r.wf(),
            r.pending() == self.pending(),
            r.spec_endpoint() == self.spec_endpoint(),
            r.spec_capacity() == self.spec_capacity(),
    {
        BulkReader { timeout, ..self }
    }

    /// Fills `buf`: first from the buffered bytes, then by device reads
    /// into the buffer until `buf` is full or a read returns no bytes.
    /// Returns how many bytes were placed; they start with the bytes that
    /// were buffered.
    pub fn read(&mut self, buf: &mut [u8]) -> (r: Result<usize, UsbError>)
        requires
            old(self).wf(),
        ensures
            final(self).wf(),
            final(self).spec_endpoint() == old(self).spec_endpoint(),
            final(self).spec_capacity() == old(self).spec_capacity(),
            final(buf)@.len() == old(buf)@.len(),
            r matches Ok(n) ==> n <= old(buf)@.len(),
            ({
                let p = old(self).pending();
                let k = if p.len() < old(buf)@.len() { p.len() } else { old(buf)@.len() as nat };
                r is Ok ==> final(buf)@.subrange(0, k as int) == p.subrange(0, k as int)
            }),
            old(self).pending().len() >= old(buf)@.len() ==> {
                &&& r == Ok::<usize, UsbError>(old(buf)@.len() as usize)
                &&& final(buf)@ == old(self).pending().subrange(0, old(buf)@.len() as int)
                &&& final(self).pending() == old(self).pending().subrange(old(buf)@.len() as int, old(self).pending().len() as int)
                &&& final(self).calls() == old(self).calls()
            },
            extends(old(self).calls(), final(self).calls()),
            r matches Ok(n) ==> old(self).pending() + received_reads(added(old(self).calls(), final(self).calls()))
                == final(buf)@.subrange(0, n as int) + final(self).pending(),
            r matches Ok(n) && n < old(buf)@.len() ==> {
                let a = added(old(self).calls(), final(self).calls());
                &&& final(self).pending().len() == 0
                &&& a.len() > 0
                &&& call_result(a.last()) == Ok::<usize, UsbError>(0)
            },
    {
        let ghost h0 = self.calls();
        proof {
            lemma_extends_refl(h0);
        }
        let ghost p = self.pending();
        let ghost k: nat = if p.len() < buf@.len() { p.len() } else { buf@.len() as nat };
        let mut written: usize = 0;
        while written < buf.len() && self.buffer_pos < self.buffer_len
            invariant
                self.wf(),
                self.buffer@ == old(self).buffer@,
                self.buffer_len == old(self).buffer_len,
                self.endpoint == old(self).endpoint,
                self.calls() == old(self).calls(),
                buf@.len() == old(buf)@.len(),
                written <= buf@.len(),
                self.buffer_pos == old(self).buffer_pos + written,
                p == old(self).pending(),
                forall|j: int| 0 <= j < written ==> buf@[j] == #[trigger] p[j],
                p == buf@.subrange(0, written as int) + self.pending(),
            decreases buf@.len() - written,
        {
            let ghost b0 = buf@;
            let ghost q0 = self.pending();
            buf[written] = self.buffer[self.buffer_pos];
            written = written + 1;
            self.buffer_pos = self.buffer_pos + 1;
            proof {
                assert(buf@.subrange(0, written as int) =~= b0.subrange(0, written - 1).push(q0[0]));
                assert(q0 =~= seq![q0[0]] + self.pending());
                assert(p =~= buf@.subrange(0, written as int) + self.pending());
            }
        }
        assert(written == k);
        assert(buf@.subrange(0, k as int) =~= p.subrange(0, k as int));
        if written >= buf.len() {
            assert(buf@ =~= p.subrange(0, buf@.len() as int));
            assert(self.pending() =~= p.subrange(buf@.len() as int, p.len() as int));
            assert(received_reads(added(h0, self.calls())) =~= Seq::<u8>::empty());
            assert(p + received_reads(added(h0, self.calls())) =~= p);
            return Ok(written);
        }
        proof {
            assert(self.pending().len() == 0);
            assert(received_reads(added(h0, self.calls())) =~= Seq::<u8>::empty());
            assert(p + received_reads(added(h0, self.calls())) =~= buf@.subrange(0, written as int) + self.pending());
        }
        while written < buf.len()
            invariant
                self.wf(),
                self.endpoint == old(self).endpoint,
                self.buffer@.len() == old(self).buffer@.len(),
                buf@.len() == old(buf)@.len(),
                k <= written <= buf@.len(),
                k < buf@.len(),
                k == p.len(),
                p == old(self).pending(),
                buf@.subrange(0, k as int) == p.subrange(0, k as int),
                h0 == old(self).calls(),
                extends(h0, self.calls()),
                written < buf@.len() ==> self.pending().len() == 0,
                p + received_reads(added(h0, self.calls())) == buf@.subrange(0, written as int) + self.pending(),
            ensures
                written < buf@.len() ==> self.pending().len() == 0 && added(h0, self.calls()).len() > 0 && call_result(
                    added(h0, self.calls()).last(),
                ) == Ok::<usize, UsbError>(0),
            decreases buf@.len() - written,
        {
            let ghost before_calls = self.calls();
            let res = self.handle.bulk_read(self.endpoint, self.buffer.as_mut_slice(), self.timeout);
            proof {
                lemma_added_push(h0, before_calls, self.calls().last());
            }
            let got = match res {
                Ok(n) => n,
                Err(e) => return Err(e),
            };
            self.buffer_len = got;
            self.buffer_pos = 0;
            proof {
                let c = self.calls().last();
                assert(received_by(c) =~= self.pending());
                assert(received_reads(added(h0, self.calls())) == received_reads(added(h0, before_calls)) + received_by(c)) by {
                    assert(added(h0, self.calls()).drop_last() =~= added(h0, before_calls));
                }
                assert(p + received_reads(added(h0, self.calls())) =~= buf@.subrange(0, written as int) + self.pending());
            }
            if got == 0 {
                break;
            }
            let ghost before = buf@;
            let ghost w0 = written;
            while written < buf.len() && self.buffer_pos < self.buffer_len
                invariant
                    self.wf(),
                    self.endpoint == old(self).endpoint,
                    self.buffer@.len() == old(self).buffer@.len(),
                    buf@.len() == old(buf)@.len(),
                    k <= written <= buf@.len(),
                    self.buffer_pos == written - w0,
                    self.buffer_len == got,
                    w0 < buf@.len(),
                    forall|j: int| 0 <= j < k ==> buf@[j] == #[trigger] before[j],
                    before.subrange(0, k as int) == p.subrange(0, k as int),
                    h0 == old(self).calls(),
                    extends(h0, self.calls()),
                    p + received_reads(added(h0, self.calls())) == buf@.subrange(0, written as int) + self.pending(),
                decreases buf@.len() - written,
            {
                let ghost b0 = buf@;
                let ghost q0 = self.pending();
                buf[written] = self.buffer[self.buffer_pos];
                written = written + 1;
                self.buffer_pos = self.buffer_pos + 1;
                proof {
                    assert(buf@.subrange(0, written as int) =~= b0.subrange(0, written - 1).push(q0[0]));
                    assert(q0 =~= seq![q0[0]] + self.pending());
                    assert(p + received_reads(added(h0, self.calls())) =~= buf@.subrange(0, written as int) + self.pending());
                }
            }
            assert(buf@.subrange(0, k as int) =~= before.subrange(0, k as int));
        }
        Ok(written)
    }

    /// Reads up to a newline and returns the line without it and without a
    /// carriage return before it; the end of the stream also ends the line.
    /// Fails when the line is not UTF-8.
    pub fn read_line(&mut self) -> (r: Result<String, UsbError>)
        requires
            old(self).wf(),
        ensures
            final(self).wf(),
            final(self).spec_endpoint() == old(self).spec_endpoint(),
            final(self).spec_capacity() == old(self).spec_capacity(),
            extends(old(self).calls(), final(self).calls()),
            r matches Ok(s) ==> exists|line: Seq<u8>, newline: bool|
                {
                    let a = added(old(self).calls(), final(self).calls());
                    &&& !line.contains(10u8)
                    &&& old(self).pending() + received_reads(a) == line + (if newline {
                        seq![10u8]
                    } else {
                        Seq::<u8>::empty()
                    }) + final(self).pending()
                    &&& !newline ==> (final(self).pending().len() == 0 && a.len() > 0 && call_result(a.last())
                        == Ok::<usize, UsbError>(0)) || line.len() >= MAX_LINE_READS
                    &&& valid_utf8(#[trigger] line_text(line, newline))
                    &&& s@ == decode_utf8(line_text(line, newline))
                },
    {
        let ghost h0 = self.calls();
        proof {
            lemma_extends_refl(h0);
            assert(received_reads(added(h0, h0)) =~= Seq::<u8>::empty());
        }
        let mut line: Vec<u8> = Vec::new();
        let mut byte: Vec<u8> = vec![0u8; 1];
        let mut reads_left: u64 = MAX_LINE_READS;
        let mut newline = false;
        proof {
            assert(old(self).pending() + received_reads(added(h0, self.calls())) =~= line@ + self.pending());
        }
        while reads_left > 0
            invariant_except_break
                !newline,
                line@.len() + reads_left == MAX_LINE_READS,
                old(self).pending() + received_reads(added(h0, self.calls())) == line@ + self.pending(),
            invariant
                self.wf(),
                self.spec_endpoint() == old(self).spec_endpoint(),
                self.spec_capacity() == old(self).spec_capacity(),
                byte@.len() == 1,
                !line@.contains(10u8),
                h0 == old(self).calls(),
                extends(h0, self.calls()),
            ensures
                !line@.contains(10u8),
                extends(h0, self.calls()),
                old(self).pending() + received_reads(added(h0, self.calls())) == line@ + (if newline {
                    seq![10u8]
                } else {
                    Seq::<u8>::empty()
                }) + self.pending(),
                !newline ==> (self.pending().len() == 0 && added(h0, self.calls()).len() > 0 && call_result(
                    added(h0, self.calls()).last(),
                ) == Ok::<usize, UsbError>(0)) || line@.len() >= MAX_LINE_READS,
            decreases reads_left,
        {
            reads_left = reads_left - 1;
            let ghost before = self.calls();
            let ghost q = self.pending();
            let res = self.read(byte.as_mut_slice());
            proof {
                lemma_added_concat(h0, before, self.calls());
                lemma_received_concat(added(h0, before), added(before, self.calls()));
            }
            let got = match res {
                Ok(n) => n,
                Err(e) => return Err(e),
            };
            if got == 0 {
                proof {
                    assert(byte@.subrange(0, 0) =~= Seq::<u8>::empty());
                    assert(added(h0, self.calls()).last() == added(before, self.calls()).last());
                    assert(old(self).pending() + received_reads(added(h0, self.calls())) =~= line@ + Seq::<u8>::empty() + self.pending());
                }
                break;
            }
            proof {
                assert(byte@.subrange(0, 1) =~= seq![byte@[0]]);
                assert(old(self).pending() + received_reads(added(h0, self.calls())) =~= line@ + seq![byte@[0]] + self.pending());
            }
            if byte[0] == 10u8 {
                newline = true;
                break;
            }
            let ghost before_line = line@;
            line.push(byte[0]);
            proof {
                assert forall|i: int| 0 <= i < line@.len() implies line@[i] != 10u8 by {
                    if i < before_line.len() {
                        assert(line@[i] == before_line[i]);
                    }
                }
                assert(line@ =~= before_line + seq![byte@[0]]);
            }
        }
        let ghost bytes = line@;
        let ghost nl = newline;
        let r = finish_line(line, newline);
        if let Ok(s) = &r {
            assert(!bytes.contains(10u8) && valid_utf8(line_text(bytes, nl)) && s@ == decode_utf8(line_text(bytes, nl)));
        }
        r
    }
}

/// The text of a line read up to a newline (`newline`) or to the end of
/// the stream: one carriage return before the newline is dropped.
pub open spec fn line_text(bytes: Seq<u8>, newline: bool) -> Seq<u8> {
    if newline && bytes.len() > 0 && bytes.last() == 13u8 { bytes.drop_last() } else { bytes }
}

/// The line that `bytes` (without its newline) holds, as text: a carriage
/// return before a newline dropped, then decoded as UTF-8.
pub fn finish_line(bytes: Vec<u8>, newline: bool) -> (r: Result<String, UsbError>)
    ensures
        r is Ok <==> valid_utf8(line_text(bytes@, newline)),
        r matches Ok(s) ==> s@ == decode_utf8(line_text(bytes@, newline)),
        r matches Err(e) ==> e is Parse,
{
    let mut line = bytes;
    if newline && line.len() > 0 && line[line.len() - 1] == 13u8 {
        line.pop();
    }
    match utf8_decode(line) {
        Some(s) => Ok(s),
        None => Err(UsbError::Parse("invalid utf-8 sequence".to_string())),
    }
}

/// The data of the write requests among `calls`, one after another.
pub open spec fn written_data(calls: Seq<UsbCall>) -> Seq<u8>
    decreases calls.len(),
{
    if calls.len() == 0 {
        Seq::empty()
    } else if calls.last() is BulkWrite {
        written_data(calls.drop_last()) + call_data(calls.last())
    } else {
        written_data(calls.drop_last())
    }
}

proof fn lemma_written_concat(p: Seq<UsbCall>, w: Seq<UsbCall>)
    ensures
        written_data(p + w) == written_data(p) + written_data(w),
    decreases w.len(),
{
    if w.len() == 0 {
        assert(p + w =~= p);
        assert(written_data(p) + written_data(w) =~= written_data(p));
    } else {
        lemma_written_concat(p, w.drop_last());
        assert((p + w).drop_last() =~= p + w.drop_last());
        assert(written_data(p + w) =~= written_data(p) + written_data(w));
    }
}

proof fn lemma_written_push(p: Seq<UsbCall>, c: UsbCall)
    ensures
        written_data(p.push(c)) == if c is BulkWrite { written_data(p) + call_data(c) } else { written_data(p) },
{
    assert(p.push(c).drop_last() =~= p);
}

/// What stays buffered after writing `data` into a buffer holding
/// `pending`: every byte is appended, and the buffer is flushed (emptied)
/// whenever it reaches `capacity`.
pub open spec fn buffered_after(pending: Seq<u8>, data: Seq<u8>, capacity: nat) -> Seq<u8>
    decreases data.len(),
{
    if data.len() == 0 {
        pending
    } else {
        let q = buffered_after(pending, data.drop_last(), capacity).push(data.last());
        if q.len() >= capacity { Seq::empty() } else { q }
    }
}

/// A writer that collects bytes and sends them to a bulk OUT endpoint once
/// its buffer is full and on `flush`.
pub struct BulkWriter<'a, H: DeviceHandle> {
    handle: &'a mut H,
    endpoint: u8,
    timeout: Duration,
    buffer: Vec<u8>,
    buffer_size: usize,
}

impl<'a, H: DeviceHandle> BulkWriter<'a, H> {
    /// Bytes written and not yet sent.
    pub closed spec fn pending(&self) -> Seq<u8> {
        self.buffer@
    }

    /// The requests made through the device handle so far.
    pub closed spec fn calls(&self) -> Seq<UsbCall> {
        self.handle.calls()
    }

    pub closed spec fn spec_timeout(&self) -> Duration {
        self.timeout
    }

    pub closed spec fn spec_capacity(&self) -> nat {
        self.buffer_size as nat
    }

    pub closed spec fn spec_endpoint(&self) -> u8 {
        self.endpoint
    }

    /// A writer on the OUT endpoint `endpoint` that sends every
    /// `buffer_size` bytes.
    pub fn new(handle: &'a mut H, endpoint: u8, buffer_size: usize) -> (r: Self)
        ensures
            r.pending() == Seq::<u8>::empty(),
            r.spec_capacity() == buffer_size,
            r.spec_endpoint() == out_endpoint(endpoint),
            r.calls() == old(handle).calls(),
    {
        BulkWriter {
            handle,
            endpoint: endpoint & 0x7F,
            timeout: millis(DEFAULT_TIMEOUT_MS),
            buffer: Vec::with_capacity(buffer_size),
            buffer_size,
        }
    }

    pub fn with_timeout(self, timeout: Duration) -> (r: Self)
        ensures
            r.pending() == self.pending(),
            r.spec_capacity() == self.spec_capacity(),
            r.spec_endpoint() == self.spec_endpoint(),
    {
        let mut w = self;
        w.timeout = timeout;
        w
    }

    /// Buffers `buf`, sending the buffer each time it fills up. On success
    /// every byte was taken and what stays buffered is `buffered_after`.
    pub fn write(&mut self, buf: &[u8]) -> (r: Result<usize, UsbError>)
        ensures
            final(self).spec_capacity() == old(self).spec_capacity(),
            final(self).spec_endpoint() == old(self).spec_endpoint(),
            final(self).spec_timeout() == old(self).spec_timeout(),
            extends(old(self).calls(), final(self).calls()),
            r matches Ok(n) ==> n == buf@.len(),
            r is Ok ==> final(self).pending() == buffered_after(old(self).pending(), buf@, old(self).spec_capacity()),
            r is Ok ==> written_data(added(old(self).calls(), final(self).calls())) + final(self).pending()
                == old(self).pending() + buf@,
            r matches Err(e) ==> added(old(self).calls(), final(self).calls()).len() > 0 && call_result(
                added(old(self).calls(), final(self).calls()).last(),
            ) == Err::<usize, UsbError>(e),
    {
        let ghost h0 = self.calls();
        proof {
            lemma_extends_refl(h0);
        }
        let mut i: usize = 0;
        while i < buf.len()
            invariant
                i <= buf@.len(),
                self.buffer_size == old(self).buffer_size,
                self.endpoint == old(self).endpoint,
                self.timeout == old(self).timeout,
                h0 == old(self).calls(),
                extends(h0, self.calls()),
                self.pending() == buffered_after(old(self).pending(), buf@.subrange(0, i as int), self.buffer_size as nat),
                written_data(added(h0, self.calls())) + self.pending() == old(self).pending() + buf@.subrange(0, i as int),
            decreases buf@.len() - i,
        {
            proof {
                assert(buf@.subrange(0, i + 1).drop_last() =~= buf@.subrange(0, i as int));
                assert(buf@.subrange(0, i + 1).last() == buf@[i as int]);
            }
            let ghost w0 = written_data(added(h0, self.calls()));
            let ghost p0 = self.pending();
            self.buffer.push(buf[i]);
            proof {
                assert(self.pending() == p0.push(buf@[i as int]));
                assert(buf@.subrange(0, i + 1) =~= buf@.subrange(0, i as int).push(buf@[i as int]));
                assert(w0 + self.pending() =~= (w0 + p0).push(buf@[i as int]));
            }
            if self.buffer.len() >= self.buffer_size {
                let ghost before = self.calls();
                let ghost pend = self.pending();
                let rf = self.flush();
                proof {
                    lemma_added_push(h0, before, self.calls().last());
                    assert(added(h0, self.calls()).last() == self.calls().last());
                }
                match rf {
                    Ok(()) => {
                        proof {
                            lemma_written_push(added(h0, before), self.calls().last());
                            assert(w0 + pend =~= written_data(added(h0, self.calls())) + self.pending());
                        }
                    },
                    Err(e) => return Err(e),
                }
            }
            i = i + 1;
        }
        assert(buf@.subrange(0, buf@.len() as int) =~= buf@);
        Ok(buf.len())
    }

    /// Sends the buffered bytes, if any, in one transfer, and on success
    /// empties the buffer.
    pub fn flush(&mut self) -> (r: Result<(), UsbError>)
        ensures
            final(self).spec_capacity() == old(self).spec_capacity(),
            final(self).spec_endpoint() == old(self).spec_endpoint(),
            r is Ok ==> final(self).pending() == Seq::<u8>::empty(),
            r is Err ==> final(self).pending() == old(self).pending(),
            final(self).spec_timeout() == old(self).spec_timeout(),
            old(self).pending().len() == 0 ==> r is Ok && final(self).calls() == old(self).calls(),
            old(self).pending().len() > 0 ==> {
                &&& one_request(old(self).calls(), final(self).calls())
                &&& final(self).calls().last() == (UsbCall::BulkWrite {
                    endpoint: old(self).spec_endpoint(),
                    data: old(self).pending(),
                    timeout: old(self).spec_timeout(),
                    result: call_result(final(self).calls().last()),
                })
                &&& mirrors(r, call_result(final(self).calls().last()))
            },
    {
        if self.buffer.len() > 0 {
            match self.handle.bulk_write(self.endpoint, self.buffer.as_slice(), self.timeout) {
                Ok(_) => {},
                Err(e) => return Err(e),
            }
            self.buffer.clear();
        }
        assert(self.buffer@ =~= Seq::<u8>::empty());
        Ok(())
    }

    /// Writes `line` and a newline, then flushes.
    pub fn write_line(&mut self, line: &str) -> (r: Result<(), UsbError>)
        ensures
            final(self).spec_capacity() == old(self).spec_capacity(),
            final(self).spec_endpoint() == old(self).spec_endpoint(),
            extends(old(self).calls(), final(self).calls()),
            r is Ok ==> final(self).pending() == Seq::<u8>::empty(),
            r is Ok ==> written_data(added(old(self).calls(), final(self).calls())) == old(self).pending()
                + line.spec_bytes() + seq![10u8],
    {
        let ghost h0 = self.calls();
        let bytes = line.as_bytes();
        match self.write(bytes) {
            Ok(_) => {},
            Err(e) => return Err(e),
        }
        let ghost h1 = self.calls();
        let ghost p1 = self.pending();
        let newline: Vec<u8> = vec![10u8];
        let rw = self.write(newline.as_slice());
        proof {
            lemma_extends_trans(h0, h1, self.calls());
        }
        match rw {
            Ok(_) => {},
            Err(e) => return Err(e),
        }
        let ghost h2 = self.calls();
        let ghost p2 = self.pending();
        proof {
            lemma_added_concat(h0, h1, h2);
            lemma_written_concat(added(h0, h1), added(h1, h2));
        }
        let rf = self.flush();
        proof {
            lemma_extends_trans(h0, h1, h2);
            if p2.len() > 0 {
                lemma_added_push(h0, h2, self.calls().last());
                lemma_written_push(added(h0, h2), self.calls().last());
            }
            let w01 = written_data(added(h0, h1));
            let w12 = written_data(added(h1, h2));
            assert(newline@ =~= seq![10u8]);
            assert(w01 + p1 == old(self).pending() + line.spec_bytes());
            assert(w12 + p2 == p1 + seq![10u8]);
            assert(written_data(added(h0, h2)) == w01 + w12);
            assert((w01 + w12) + p2 =~= w01 + (w12 + p2));
            assert(w01 + (p1 + seq![10u8]) =~= (w01 + p1) + seq![10u8]);
            assert(written_data(added(h0, h2)) + p2 =~= old(self).pending() + line.spec_bytes() + seq![10u8]);
            if rf is Ok {
                if p2.len() == 0 {
                    assert(written_data(added(h0, h2)) + p2 =~= written_data(added(h0, h2)));
                }
                assert(written_data(added(h0, self.calls())) =~= old(self).pending() + line.spec_bytes() + seq![10u8]);
            }
        }
        rf
    }
}

} // verus!
