use bootforge_usb::api::find_device;
use bootforge_usb::control::ControlTransfer;
use bootforge_usb::dfu::DfuClient;
use bootforge_usb::interrupt::{HidDevice, InterruptPoller, InterruptTransfer, ReportType, StopFlag};
use bootforge_usb::ptp::PtpClient;
use bootforge_usb::{
    CallHistory, DeviceEvent, DeviceHandle, DriverStatus, LinkHealth, UsbDescriptorSummary, UsbDeviceRecord, UsbEnumerator, UsbError,
    UsbId, UsbLocation, UsbProtocol,
};
use std::cell::RefCell;
use std::collections::VecDeque;
use std::time::Duration;

/// Answers control reads from a queue and records every request.
struct Recorder {
    replies: RefCell<VecDeque<Vec<u8>>>,
    requests: RefCell<Vec<(u8, u8, u16, u16, usize)>>,
    interrupts: RefCell<VecDeque<Result<Vec<u8>, UsbError>>>,
    interrupt_endpoints: RefCell<Vec<u8>>,
}

impl Recorder {
    fn new() -> Self {
        Recorder {
            replies: RefCell::new(VecDeque::new()),
            requests: RefCell::new(Vec::new()),
            interrupts: RefCell::new(VecDeque::new()),
            interrupt_endpoints: RefCell::new(Vec::new()),
        }
    }
}

impl DeviceHandle for Recorder {
    fn calls(&self) -> CallHistory {
        unreachable!("the request history is a specification-only model")
    }

    fn bulk_read(&mut self, _e: u8, _b: &mut [u8], _t: Duration) -> Result<usize, UsbError> {
        Ok(0)
    }

    fn bulk_write(&mut self, _e: u8, b: &[u8], _t: Duration) -> Result<usize, UsbError> {
        Ok(b.len())
    }

    fn control_read(&mut self, rt: u8, req: u8, value: u16, index: u16, buf: &mut [u8], _t: Duration) -> Result<usize, UsbError> {
        self.requests.borrow_mut().push((rt, req, value, index, buf.len()));
        let reply = self.replies.borrow_mut().pop_front().unwrap_or_default();
        let n = reply.len().min(buf.len());
        buf[..n].copy_from_slice(&reply[..n]);
        Ok(n)
    }

    fn control_write(&mut self, rt: u8, req: u8, value: u16, index: u16, buf: &[u8], _t: Duration) -> Result<usize, UsbError> {
        self.requests.borrow_mut().push((rt, req, value, index, buf.len()));
        Ok(buf.len())
    }

    fn interrupt_read(&mut self, endpoint: u8, buf: &mut [u8], _t: Duration) -> Result<usize, UsbError> {
        self.interrupt_endpoints.borrow_mut().push(endpoint);
        match self.interrupts.borrow_mut().pop_front() {
            Some(Ok(data)) => {
                let n = data.len().min(buf.len());
                buf[..n].copy_from_slice(&data[..n]);
                Ok(n)
            }
            Some(Err(e)) => Err(e),
            None => Err(UsbError::UsbLib(rusb::Error::NoDevice)),
        }
    }

    fn interrupt_write(&mut self, endpoint: u8, buf: &[u8], _t: Duration) -> Result<usize, UsbError> {
        self.interrupt_endpoints.borrow_mut().push(endpoint);
        Ok(buf.len())
    }

    fn pause(&mut self, _ms: u64) {}
}

fn record(vid: u16, pid: u16, address: u8) -> UsbDeviceRecord {
    UsbDeviceRecord {
        id: UsbId::new(vid, pid),
        location: UsbLocation { bus: Some(1), address: Some(address), port_path: None },
        descriptor: UsbDescriptorSummary {
            manufacturer: None,
            product: None,
            serial_number: None,
            device_class: None,
            device_subclass: None,
            device_protocol: None,
            usb_version: None,
        },
        driver: DriverStatus::Unknown,
        health: LinkHealth::Good,
        tags: Vec::new(),
        raw_data: None,
    }
}

#[test]
fn configuration_descriptor_is_read_in_two_phases() {
    let mut dev = Recorder::new();
    dev.replies.borrow_mut().push_back(vec![9, 2, 12, 0, 1, 1, 0, 0x80, 50]);
    dev.replies.borrow_mut().push_back(vec![9, 2, 12, 0, 1, 1, 0, 0x80, 50, 7, 7, 7]);
    let mut ctl = ControlTransfer::new(&mut dev);
    let desc = ctl.get_configuration_descriptor(1).unwrap();
    assert_eq!(desc.len(), 12);
    let reqs = dev.requests.borrow();
    assert_eq!(reqs[0], (0x80, 0x06, 0x0201, 0, 9));
    assert_eq!(reqs[1], (0x80, 0x06, 0x0201, 0, 12));
}

#[test]
fn bos_and_device_descriptors() {
    let mut dev = Recorder::new();
    dev.replies.borrow_mut().push_back(vec![5, 15, 8, 0, 1]);
    dev.replies.borrow_mut().push_back(vec![5, 15, 8, 0, 1, 3, 16, 2]);
    dev.replies.borrow_mut().push_back(vec![18, 1, 0, 2]);
    let mut ctl = ControlTransfer::new(&mut dev);
    assert_eq!(ctl.get_bos_descriptor().unwrap().len(), 8);
    assert_eq!(ctl.get_device_descriptor().unwrap(), vec![18, 1, 0, 2]);
    assert_eq!(dev.requests.borrow()[1], (0x80, 0x06, 0x0F00, 0, 8));
    assert_eq!(dev.requests.borrow()[2], (0x80, 0x06, 0x0100, 0, 18));
}

#[test]
fn device_status_and_vendor_requests() {
    let mut dev = Recorder::new();
    dev.replies.borrow_mut().push_back(vec![0x01, 0x02]);
    let mut ctl = ControlTransfer::new(&mut dev);
    assert_eq!(ctl.get_device_status().unwrap(), 0x0201);
    ctl.set_configuration(3).unwrap();
    ctl.vendor_write(0x51, 0x1234, 0x0002, &[1, 2]).unwrap();
    let reqs = dev.requests.borrow();
    assert_eq!(reqs[1], (0x00, 0x09, 3, 0, 0));
    assert_eq!(reqs[2], (0x40, 0x51, 0x1234, 0x0002, 2));
}

#[test]
fn language_ids_come_from_string_zero() {
    let mut dev = Recorder::new();
    dev.replies.borrow_mut().push_back(vec![4, 3, 0x09, 0x04]);
    let mut ctl = ControlTransfer::new(&mut dev);
    assert_eq!(ctl.get_language_ids().unwrap(), vec![0x0409]);
}

#[test]
fn hid_requests_encode_value_and_interface() {
    let mut dev = Recorder::new();
    dev.replies.borrow_mut().push_back(vec![0x7F]);
    let mut hid = HidDevice::new(&mut dev, 2);
    let mut buf = [0u8; 8];
    hid.get_report(ReportType::Feature, 5, &mut buf).unwrap();
    hid.set_idle(0, 4).unwrap();
    let reqs = dev.requests.borrow();
    assert_eq!(reqs[0], (0xA1, 0x01, 0x0305, 2, 8));
    assert_eq!(reqs[1], (0x21, 0x0A, 0x0400, 2, 0));
}

#[test]
fn hid_get_idle_returns_byte() {
    let mut dev = Recorder::new();
    dev.replies.borrow_mut().push_back(vec![0x7F]);
    let mut hid = HidDevice::new(&mut dev, 0);
    assert_eq!(hid.get_idle(1).unwrap(), 0x7F);
}

#[test]
fn interrupt_poller_skips_timeouts_and_stops_on_callback() {
    let mut dev = Recorder::new();
    dev.interrupts.borrow_mut().extend([
        Err(UsbError::UsbLib(rusb::Error::Timeout)),
        Ok(vec![1, 2]),
        Ok(vec![3]),
    ]);
    let mut poller = InterruptPoller::new(0x01, 8);
    let seen = RefCell::new(Vec::new());
    poller
        .poll(
            &mut dev,
            |chunk: &[u8]| {
                seen.borrow_mut().push(chunk.to_vec());
                chunk.len() > 1
            },
            &StopFlag::new(),
        )
        .unwrap();
    assert_eq!(*seen.borrow(), vec![vec![1, 2], vec![3]]);
    assert!(dev.interrupt_endpoints.borrow().iter().all(|&e| e == 0x81));
}

#[test]
fn interrupt_poller_surfaces_other_errors() {
    let mut dev = Recorder::new();
    let mut poller = InterruptPoller::new(0x81, 8);
    let r = poller.poll(&mut dev, |_chunk: &[u8]| true, &StopFlag::new());
    assert!(matches!(r, Err(UsbError::UsbLib(rusb::Error::NoDevice))));
    assert!(!poller.is_running());
}

#[test]
fn interrupt_transfer_normalizes_endpoints() {
    let mut dev = Recorder::new();
    let mut it = InterruptTransfer::new(&mut dev);
    it.write(0x83, &[1]).unwrap();
    let mut buf = [0u8; 4];
    assert_eq!(it.try_read(0x03, &mut buf), None);
    assert_eq!(*dev.interrupt_endpoints.borrow(), vec![0x03, 0x83]);
}

#[test]
fn ptp_session_lifecycle() {
    let mut dev = Recorder::new();
    let mut client = PtpClient::new(&mut dev, 0x01, 0x82, 0x03);
    assert_eq!(client.endpoints(), (0x81, 0x02, 0x83));
    assert!(!client.is_session_open());
    client.open_session().unwrap();
    assert!(client.is_session_open());
    assert!(client.is_connected());
    client.close_session().unwrap();
    assert!(!client.is_session_open());
    assert_eq!(client.name(), "PTP");
    assert_eq!(client.version().as_deref(), Some("1.0"));
}

#[test]
fn dfu_client_reports_protocol() {
    let mut dev = Recorder::new();
    let mut client = DfuClient::new(&mut dev, 0, 64);
    assert_eq!(client.name(), "DFU");
    assert!(client.is_connected());
    assert_eq!(client.version().as_deref(), Some("1.1"));
}

#[test]
fn dfu_get_state_and_abort_update_cache() {
    let mut dev = Recorder::new();
    dev.replies.borrow_mut().push_back(vec![10]);
    let mut client = DfuClient::new(&mut dev, 1, 64);
    assert_eq!(client.get_state().unwrap(), bootforge_usb::dfu::DfuState::DfuError);
    assert_eq!(client.state(), bootforge_usb::dfu::DfuState::DfuError);
    client.abort().unwrap();
    assert_eq!(client.state(), bootforge_usb::dfu::DfuState::DfuIdle);
    client.detach(1000).unwrap();
    let reqs = dev.requests.borrow();
    assert_eq!(reqs[1], (0x21, 6, 0, 1, 0));
    assert_eq!(reqs[2], (0x21, 0, 1000, 1, 0));
}

struct FixedEnumerator(Vec<UsbDeviceRecord>);

impl UsbEnumerator for FixedEnumerator {
    fn enumerate(&self) -> Result<Vec<UsbDeviceRecord>, UsbError> {
        Ok(self.0.clone())
    }
}

#[test]
fn enumerator_lookups_find_first_match() {
    let e = FixedEnumerator(vec![record(1, 2, 10), record(3, 4, 11), record(3, 4, 12)]);
    let found = e.get_device(3, 4).unwrap().unwrap();
    assert_eq!(found.location.address, Some(11));
    assert!(e.is_connected(1, 2).unwrap());
    assert!(!e.is_connected(9, 9).unwrap());
    assert_eq!(find_device(&e.0, 3, 4), Some(1));
}

#[test]
fn device_event_carries_record() {
    let ev = DeviceEvent::Removed(record(5, 6, 7));
    assert_eq!(ev.record().id, UsbId::new(5, 6));
}

#[test]
fn stopped_flag_ends_poll_before_any_read() {
    let mut dev = Recorder::new();
    let mut poller = InterruptPoller::new(0x81, 8);
    let flag = StopFlag::new();
    flag.clone().stop();
    assert!(flag.is_stopped());
    poller.poll(&mut dev, |_chunk: &[u8]| true, &flag).unwrap();
    assert!(dev.interrupt_endpoints.borrow().is_empty());
    assert!(!poller.is_running());
}
