use bootforge_usb::dfu::{DfuFunctionalDescriptor, DfuState, DfuStatus, DfuStatusResponse};
use bootforge_usb::errors::is_retryable;
use bootforge_usb::interrupt::InterruptPoller;
use bootforge_usb::ports::parse_port_path;
use bootforge_usb::ptp::{event, format_name, property, property_name, PtpEvent};
use bootforge_usb::request_type;
use bootforge_usb::{UsbBusType, UsbDeviceInfo, UsbError};
use std::time::Duration;

#[test]
fn test_is_retryable() {
    assert!(is_retryable(&UsbError::UsbLib(rusb::Error::Timeout)));
    assert!(is_retryable(&UsbError::UsbLib(rusb::Error::Busy)));
    assert!(!is_retryable(&UsbError::UsbLib(rusb::Error::NotFound)));
}

#[test]
fn test_request_type_builder() {
    let rt = request_type::build(request_type::DIR_IN, request_type::TYPE_STANDARD, request_type::RECIP_DEVICE);
    assert_eq!(rt, 0x80);

    let rt2 = request_type::build(request_type::DIR_OUT, request_type::TYPE_VENDOR, request_type::RECIP_INTERFACE);
    assert_eq!(rt2, 0x41);
}

#[test]
fn test_interrupt_poller() {
    let poller = InterruptPoller::new(0x81, 64).with_poll_interval(Duration::from_millis(100));

    assert!(!poller.is_running());
}

#[test]
fn test_parse_port_path() {
    let path = "1-2.3.4";
    let result = parse_port_path(path).unwrap();
    assert_eq!(result, vec![2, 3, 4]);

    let path2 = "3-1";
    let result2 = parse_port_path(path2).unwrap();
    assert_eq!(result2, vec![1]);
}

#[test]
fn test_dfu_state() {
    assert_eq!(DfuState::from_byte(0), DfuState::AppIdle);
    assert_eq!(DfuState::from_byte(2), DfuState::DfuIdle);
    assert!(DfuState::DfuIdle.is_dfu_mode());
    assert!(!DfuState::AppIdle.is_dfu_mode());
}

#[test]
fn test_dfu_status() {
    assert!(DfuStatus::NoError.is_ok());
    assert!(!DfuStatus::ErrTarget.is_ok());
    assert_eq!(DfuStatus::NoError.name(), "OK");
}

#[test]
fn test_status_response() {
    let data = [0x00, 0x10, 0x00, 0x00, 0x02, 0x00];
    let response = DfuStatusResponse::from_bytes(&data).unwrap();
    assert!(response.status.is_ok());
    assert_eq!(response.poll_timeout, 16);
    assert_eq!(response.state, DfuState::DfuIdle);
}

#[test]
fn test_functional_descriptor() {
    let data = [0x09, 0x21, 0x0B, 0x00, 0x10, 0x00, 0x01, 0x10, 0x01];
    let desc = DfuFunctionalDescriptor::from_bytes(&data).unwrap();
    assert!(desc.will_detach);
    assert!(desc.can_upload);
    assert!(desc.can_download);
    assert_eq!(desc.transfer_size, 256);
}

#[test]
fn test_format_name() {
    assert_eq!(format_name(bootforge_usb::ptp::format::EXIF_JPEG), "JPEG");
    assert_eq!(format_name(bootforge_usb::ptp::format::PNG), "PNG");
    assert_eq!(format_name(bootforge_usb::ptp::format::ASSOCIATION), "Folder");
}

#[test]
fn test_property_name() {
    assert_eq!(property_name(property::BATTERY_LEVEL), "Battery Level");
    assert_eq!(property_name(property::EXPOSURE_INDEX), "ISO");
}

#[test]
fn test_event_name() {
    let event = PtpEvent { code: event::CAPTURE_COMPLETE, session_id: 1, transaction_id: 1, parameters: vec![] };
    assert_eq!(event.name(), "CaptureComplete");
}

#[test]
fn test_usb_device_info_creation() {
    let device = UsbDeviceInfo::new(0x1234, 0x5678);
    assert_eq!(device.vendor_id, 0x1234);
    assert_eq!(device.product_id, 0x5678);
    assert_eq!(device.bus_type, UsbBusType::Unknown);
}

#[test]
fn test_usb_device_info_display() {
    let mut device = UsbDeviceInfo::new(0x1234, 0x5678);
    device.manufacturer = Some("Test Manufacturer".to_string());
    device.product = Some("Test Product".to_string());
    device.bus_number = 1;
    device.device_address = 2;

    let display = device.display_string();
    assert!(display.contains("1234:5678"));
    assert!(display.contains("Test Manufacturer"));
    assert!(display.contains("Test Product"));
}
