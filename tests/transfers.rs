use bootforge_usb::bulk::{retry_delay, BulkReader, BulkTransfer, BulkWriter};
use bootforge_usb::control::{decode_language_ids, decode_string_descriptor, ControlTransfer};
use bootforge_usb::dfu::{DfuClient, DfuState, ProgressLog};
use bootforge_usb::{CallHistory, DeviceHandle, UsbError};
use std::cell::{Cell, RefCell};
use std::collections::VecDeque;
use std::time::Duration;

/// A scripted device: bulk reads fail with `read_error` for the first
/// `read_failures` calls, then deliver the queued chunks; bulk writes accept
/// what `accept` says per call (all when it runs out); DFU requests follow a
/// small state machine that reports busy once per block.
struct MockDevice {
    read_failures: Cell<u32>,
    read_error: UsbError,
    read_chunks: RefCell<VecDeque<Vec<u8>>>,
    read_calls: Cell<u32>,
    read_endpoints: RefCell<Vec<u8>>,
    accept: RefCell<VecDeque<usize>>,
    writes: RefCell<Vec<Vec<u8>>>,
    write_endpoints: RefCell<Vec<u8>>,
    pauses: RefCell<Vec<u64>>,
    dfu_busy_pending: Cell<bool>,
    dfu_manifest_polls: Cell<u32>,
    dfu_blocks: RefCell<Vec<(u16, Vec<u8>)>>,
    control_reply: RefCell<Vec<u8>>,
    upload_blocks: RefCell<VecDeque<Vec<u8>>>,
    status_byte: Cell<u8>,
}

impl MockDevice {
    fn new() -> Self {
        MockDevice {
            read_failures: Cell::new(0),
            read_error: UsbError::UsbLib(rusb::Error::Timeout),
            read_chunks: RefCell::new(VecDeque::new()),
            read_calls: Cell::new(0),
            read_endpoints: RefCell::new(Vec::new()),
            accept: RefCell::new(VecDeque::new()),
            writes: RefCell::new(Vec::new()),
            write_endpoints: RefCell::new(Vec::new()),
            pauses: RefCell::new(Vec::new()),
            dfu_busy_pending: Cell::new(false),
            dfu_manifest_polls: Cell::new(0),
            dfu_blocks: RefCell::new(Vec::new()),
            control_reply: RefCell::new(Vec::new()),
            upload_blocks: RefCell::new(VecDeque::new()),
            status_byte: Cell::new(0),
        }
    }
}

impl DeviceHandle for MockDevice {
    fn calls(&self) -> CallHistory {
        unreachable!("the request history is a specification-only model")
    }

    fn bulk_read(&mut self, endpoint: u8, buf: &mut [u8], _timeout: Duration) -> Result<usize, UsbError> {
        self.read_calls.set(self.read_calls.get() + 1);
        self.read_endpoints.borrow_mut().push(endpoint);
        if self.read_failures.get() > 0 {
            self.read_failures.set(self.read_failures.get() - 1);
            return Err(self.read_error.clone());
        }
        match self.read_chunks.borrow_mut().pop_front() {
            Some(chunk) => {
                let n = chunk.len().min(buf.len());
                buf[..n].copy_from_slice(&chunk[..n]);
                Ok(n)
            }
            None => Ok(0),
        }
    }

    fn bulk_write(&mut self, endpoint: u8, buf: &[u8], _timeout: Duration) -> Result<usize, UsbError> {
        self.write_endpoints.borrow_mut().push(endpoint);
        self.writes.borrow_mut().push(buf.to_vec());
        let n = self.accept.borrow_mut().pop_front().unwrap_or(buf.len());
        Ok(n.min(buf.len()))
    }

    fn control_read(
        &mut self,
        _request_type: u8,
        request: u8,
        _value: u16,
        _index: u16,
        buf: &mut [u8],
        _timeout: Duration,
    ) -> Result<usize, UsbError> {
        let reply: Vec<u8> = match request {
            3 => {
                // GETSTATUS
                let state = if self.dfu_busy_pending.get() {
                    self.dfu_busy_pending.set(false);
                    4
                } else if self.dfu_manifest_polls.get() > 0 {
                    let left = self.dfu_manifest_polls.get() - 1;
                    self.dfu_manifest_polls.set(left);
                    if left == 0 { 8 } else { 7 }
                } else {
                    5
                };
                vec![self.status_byte.get(), 7, 0, 0, state, 0]
            }
            2 => self.upload_blocks.borrow_mut().pop_front().unwrap_or_default(),
            _ => self.control_reply.borrow().clone(),
        };
        let n = reply.len().min(buf.len());
        buf[..n].copy_from_slice(&reply[..n]);
        Ok(n)
    }

    fn control_write(
        &mut self,
        _request_type: u8,
        request: u8,
        value: u16,
        _index: u16,
        buf: &[u8],
        _timeout: Duration,
    ) -> Result<usize, UsbError> {
        if request == 1 {
            self.dfu_blocks.borrow_mut().push((value, buf.to_vec()));
            if buf.is_empty() {
                self.dfu_manifest_polls.set(2);
            } else {
                self.dfu_busy_pending.set(true);
            }
        }
        Ok(buf.len())
    }

    fn interrupt_read(&mut self, _endpoint: u8, _buf: &mut [u8], _timeout: Duration) -> Result<usize, UsbError> {
        Err(UsbError::UsbLib(rusb::Error::Timeout))
    }

    fn interrupt_write(&mut self, _endpoint: u8, buf: &[u8], _timeout: Duration) -> Result<usize, UsbError> {
        Ok(buf.len())
    }

    fn pause(&mut self, ms: u64) {
        self.pauses.borrow_mut().push(ms);
    }
}

#[test]
fn bulk_read_succeeds_when_retries_cover_failures() {
    let mut dev = MockDevice::new();
    dev.read_failures.set(2);
    dev.read_chunks.borrow_mut().push_back(vec![1, 2, 3]);
    let mut bulk = BulkTransfer::new(&mut dev).with_retries(2);
    let mut buf = [0u8; 8];
    let n = bulk.read(0x01, &mut buf).unwrap();
    assert_eq!(n, 3);
    assert_eq!(&buf[..3], &[1, 2, 3]);
    assert_eq!(dev.read_calls.get(), 3);
    assert_eq!(*dev.pauses.borrow(), vec![10, 20]);
    assert!(dev.read_endpoints.borrow().iter().all(|&e| e == 0x81));
}

#[test]
fn bulk_read_surfaces_last_error_when_retries_fall_short() {
    let mut dev = MockDevice::new();
    dev.read_failures.set(3);
    dev.read_chunks.borrow_mut().push_back(vec![9]);
    let mut bulk = BulkTransfer::new(&mut dev).with_retries(2);
    let mut buf = [0u8; 4];
    let r = bulk.read(0x81, &mut buf);
    assert!(matches!(r, Err(UsbError::UsbLib(rusb::Error::Timeout))));
    assert_eq!(dev.read_calls.get(), 3);
}

#[test]
fn bulk_read_does_not_retry_other_errors() {
    let mut dev = MockDevice::new();
    dev.read_error = UsbError::UsbLib(rusb::Error::Pipe);
    dev.read_failures.set(1);
    let mut bulk = BulkTransfer::new(&mut dev).with_retries(5);
    let mut buf = [0u8; 4];
    let r = bulk.read(0x81, &mut buf);
    assert!(matches!(r, Err(UsbError::UsbLib(rusb::Error::Pipe))));
    assert_eq!(dev.read_calls.get(), 1);
    assert!(dev.pauses.borrow().is_empty());
}

#[test]
fn retry_delay_is_linear_and_bounded() {
    let timeout = UsbError::UsbLib(rusb::Error::Timeout);
    assert_eq!(retry_delay(0, 3, &timeout), Some(10));
    assert_eq!(retry_delay(2, 3, &timeout), Some(30));
    assert_eq!(retry_delay(3, 3, &timeout), None);
    assert_eq!(retry_delay(0, 3, &UsbError::Parse("x".to_string())), None);
    assert_eq!(retry_delay(0, 3, &UsbError::UsbLib(rusb::Error::Interrupted)), Some(10));
}

#[test]
fn chunked_write_splits_and_stops_on_short_chunk() {
    let mut dev = MockDevice::new();
    dev.accept.borrow_mut().extend([4, 2]);
    let mut bulk = BulkTransfer::new(&mut dev).with_chunk_size(4);
    let data: Vec<u8> = (0..14).collect();
    let n = bulk.write(0x82, &data).unwrap();
    assert_eq!(n, 6);
    let writes = dev.writes.borrow();
    assert_eq!(writes.len(), 2);
    assert_eq!(writes[0], vec![0, 1, 2, 3]);
    assert_eq!(writes[1], vec![4, 5, 6, 7]);
    assert!(dev.write_endpoints.borrow().iter().all(|&e| e == 0x02));
}

#[test]
fn chunked_write_sends_every_chunk_when_accepted() {
    let mut dev = MockDevice::new();
    let mut bulk = BulkTransfer::new(&mut dev).with_chunk_size(4);
    let data: Vec<u8> = (0..10).collect();
    assert_eq!(bulk.write(0x02, &data).unwrap(), 10);
    let sizes: Vec<usize> = dev.writes.borrow().iter().map(|w| w.len()).collect();
    assert_eq!(sizes, vec![4, 4, 2]);
}

#[test]
fn unchunked_write_is_one_transfer() {
    let mut dev = MockDevice::new();
    let mut bulk = BulkTransfer::new(&mut dev);
    assert_eq!(bulk.write(0x02, &[1, 2, 3, 4, 5]).unwrap(), 5);
    assert_eq!(dev.writes.borrow().len(), 1);
}

#[test]
fn read_exact_fills_buffer_across_reads() {
    let mut dev = MockDevice::new();
    dev.read_chunks.borrow_mut().extend([vec![1, 2], vec![3, 4, 5], vec![6]]);
    let mut bulk = BulkTransfer::new(&mut dev).with_chunk_size(3);
    let mut buf = [0u8; 6];
    bulk.read_exact(0x81, &mut buf).unwrap();
    assert_eq!(buf, [1, 2, 3, 4, 5, 6]);
}

#[test]
fn read_exact_fails_on_empty_read() {
    let mut dev = MockDevice::new();
    dev.read_chunks.borrow_mut().push_back(vec![1, 2]);
    let mut bulk = BulkTransfer::new(&mut dev);
    let mut buf = [0u8; 4];
    let r = bulk.read_exact(0x81, &mut buf);
    assert!(matches!(r, Err(UsbError::Unknown(ref m)) if m == "Short read"));
}

#[test]
fn read_with_result_reports_message_on_failure() {
    let mut dev = MockDevice::new();
    dev.read_error = UsbError::UsbLib(rusb::Error::Pipe);
    dev.read_failures.set(1);
    let mut bulk = BulkTransfer::new(&mut dev);
    let mut buf = [0u8; 4];
    let r = bulk.read_with_result(0x81, &mut buf);
    assert!(!r.success);
    assert_eq!(r.bytes_transferred, 0);
    assert_eq!(r.error.as_deref(), Some("USB library error: Pipe error"));
}

#[test]
fn buffered_reader_drains_buffer_before_reading() {
    let mut dev = MockDevice::new();
    dev.read_chunks.borrow_mut().push_back(vec![1, 2, 3, 4, 5]);
    let mut reader = BulkReader::new(&mut dev, 0x01, 8);
    let mut a = [0u8; 2];
    assert_eq!(reader.read(&mut a).unwrap(), 2);
    assert_eq!(a, [1, 2]);
    let mut b = [0u8; 3];
    assert_eq!(reader.read(&mut b).unwrap(), 3);
    assert_eq!(b, [3, 4, 5]);
    assert_eq!(dev.read_calls.get(), 1);
}

#[test]
fn read_line_strips_crlf() {
    let mut dev = MockDevice::new();
    dev.read_chunks.borrow_mut().push_back(b"OKAY\r\nnext\n".to_vec());
    let mut reader = BulkReader::new(&mut dev, 0x81, 16);
    assert_eq!(reader.read_line().unwrap(), "OKAY");
    assert_eq!(reader.read_line().unwrap(), "next");
    assert_eq!(reader.read_line().unwrap(), "");
}

#[test]
fn read_line_rejects_invalid_utf8() {
    let mut dev = MockDevice::new();
    dev.read_chunks.borrow_mut().push_back(vec![0xFF, 0xFE, b'\n']);
    let mut reader = BulkReader::new(&mut dev, 0x81, 16);
    assert!(matches!(reader.read_line(), Err(UsbError::Parse(_))));
}

#[test]
fn buffered_writer_flushes_when_full() {
    let mut dev = MockDevice::new();
    let mut writer = BulkWriter::new(&mut dev, 0x81, 4);
    assert_eq!(writer.write(&[1, 2, 3, 4, 5, 6]).unwrap(), 6);
    writer.flush().unwrap();
    writer.write_line("hi").unwrap();
    assert_eq!(*dev.writes.borrow(), vec![vec![1, 2, 3, 4], vec![5, 6], b"hi\n".to_vec()]);
    assert!(dev.write_endpoints.borrow().iter().all(|&e| e == 0x01));
}

#[test]
fn dfu_download_reports_progress_per_block() {
    let mut dev = MockDevice::new();
    let mut client = DfuClient::new(&mut dev, 0, 4);
    let firmware: Vec<u8> = (0..10).collect();
    let mut log = ProgressLog::new();
    client.download(&firmware, &mut log).unwrap();
    assert_eq!(client.state(), DfuState::DfuManifestWaitReset);
    assert_eq!(log.entries, vec![(4, 10), (8, 10), (10, 10)]);
    let blocks = dev.dfu_blocks.borrow();
    assert_eq!(blocks.len(), 4);
    assert_eq!(blocks[0], (0, vec![0, 1, 2, 3]));
    assert_eq!(blocks[2], (2, vec![8, 9]));
    assert_eq!(blocks[3], (3, vec![]));
    // one busy poll per block, then the manifestation poll
    assert_eq!(*dev.pauses.borrow(), vec![7, 7, 7, 7]);
}

#[test]
fn dfu_upload_stops_on_short_block() {
    let mut dev = MockDevice::new();
    dev.upload_blocks.borrow_mut().extend([vec![1, 2, 3, 4], vec![5, 6]]);
    let mut client = DfuClient::new(&mut dev, 0, 4);
    let mut log = ProgressLog::new();
    let fw = client.upload(100, &mut log).unwrap();
    assert_eq!(log.entries, vec![(4, 100), (6, 100)]);
    assert_eq!(fw, vec![1, 2, 3, 4, 5, 6]);
}

#[test]
fn dfu_upload_stops_at_max_size() {
    let mut dev = MockDevice::new();
    dev.upload_blocks.borrow_mut().extend([vec![1, 2, 3, 4], vec![5, 6, 7, 8], vec![9, 9, 9, 9]]);
    let mut client = DfuClient::new(&mut dev, 0, 4);
    let fw = client.upload(6, &mut ProgressLog::new()).unwrap();
    assert_eq!(fw, vec![1, 2, 3, 4, 5, 6, 7, 8]);
}

#[test]
fn string_descriptor_decodes_utf16le() {
    let data = [10u8, 3, b'P', 0, b'i', 0, 0x3C, 0xD8, b'x', 0];
    // an unpaired high surrogate becomes U+FFFD
    assert_eq!(decode_string_descriptor(&data).unwrap(), "Pi\u{FFFD}x");
    assert!(matches!(decode_string_descriptor(&[4]), Err(UsbError::Parse(_))));
    assert_eq!(decode_string_descriptor(&[2, 3]).unwrap(), "");
}

#[test]
fn language_ids_default_to_us_english() {
    assert_eq!(decode_language_ids(&[2, 3]), vec![0x0409]);
    assert_eq!(decode_language_ids(&[6, 3, 0x09, 0x04, 0x07, 0x04]), vec![0x0409, 0x0407]);
}

#[test]
fn control_string_descriptor_goes_through_device() {
    let mut dev = MockDevice::new();
    *dev.control_reply.borrow_mut() = vec![8, 3, b'A', 0, b'B', 0, b'C', 0];
    let mut ctl = ControlTransfer::new(&mut dev);
    assert_eq!(ctl.get_string_descriptor(1, 0x0409).unwrap(), "ABC");
}

#[test]
fn error_messages_name_kind_and_detail() {
    assert_eq!(UsbError::Parse("bad".to_string()).message(), "Parse error: bad");
    assert_eq!(UsbError::UsbLib(rusb::Error::Timeout).message(), "USB library error: Operation timed out");
}

#[test]
fn dfu_bad_status_is_an_error_naming_it() {
    let mut dev = MockDevice::new();
    dev.status_byte.set(0x03);
    let mut client = DfuClient::new(&mut dev, 0, 4);
    let r = client.get_status();
    assert!(matches!(r, Err(UsbError::Unknown(ref m)) if m == "DFU error: errWRITE"));
    let r = client.download(&[1, 2, 3], &mut ProgressLog::new());
    assert!(matches!(r, Err(UsbError::Unknown(ref m)) if m == "DFU error: errWRITE"));
}

#[test]
fn dfu_download_of_empty_image_only_manifests() {
    let mut dev = MockDevice::new();
    let mut client = DfuClient::new(&mut dev, 0, 4);
    client.download(&[], &mut ProgressLog::new()).unwrap();
    assert_eq!(*dev.dfu_blocks.borrow(), vec![(0, vec![])]);
}
