use bootforge_usb::bulk::finish_line;
use bootforge_usb::chunks::block_end;
use bootforge_usb::dfu::upload_continues;
use bootforge_usb::interrupt::timeout_error;
use bootforge_usb::dfu::{
    block_step, manifest_step, DfuFunctionalDescriptor, DfuState, DfuStatus, DfuStatusResponse, PollStep,
};
use bootforge_usb::handshake::{is_apple_device, is_fastboot_device, is_mtp_device};
use bootforge_usb::ports::parse_port_path;
use bootforge_usb::scan::{bcd_version, collect_records, Candidate, DescriptorFields, DeviceStrings};
use bootforge_usb::{
    classify_device_protocols, DeviceProtocol, DriverStatus, LinkHealth, UsbDescriptorSummary, UsbDeviceInfo,
    UsbDeviceRecord, UsbError, UsbId, UsbLocation,
};

fn record(vid: u16, pid: u16) -> UsbDeviceRecord {
    UsbDeviceRecord {
        id: UsbId::new(vid, pid),
        location: UsbLocation { bus: Some(1), address: Some(2), port_path: None },
        descriptor: UsbDescriptorSummary {
            manufacturer: None,
            product: None,
            serial_number: None,
            device_class: None,
            device_subclass: None,
            device_protocol: None,
            usb_version: None,
        },
        driver: DriverStatus::Unknown,
        health: LinkHealth::Good,
        tags: Vec::new(),
        raw_data: None,
    }
}

#[test]
fn status_response_fields_do_not_mix() {
    let data = [0x03, 0x11, 0x22, 0x33, 0x04, 0x09];
    let r = DfuStatusResponse::from_bytes(&data).unwrap();
    assert_eq!(r.status, DfuStatus::ErrWrite);
    assert_eq!(r.poll_timeout, 0x332211);
    assert_eq!(r.state, DfuState::DfuDnBusy);
    assert_eq!(r.i_string, 9);
    for len in 0..6 {
        assert!(DfuStatusResponse::from_bytes(&data[..len]).is_err());
    }
    let unknown = DfuStatusResponse::from_bytes(&[0xFF, 0xFF, 0xFF, 0xFF, 0xFF, 0xFF]).unwrap();
    assert_eq!(unknown.status, DfuStatus::ErrStalledPkt);
    assert_eq!(unknown.state, DfuState::DfuError);
    assert_eq!(unknown.poll_timeout, 0xFF_FFFF);
}

#[test]
fn functional_descriptor_bits_are_independent() {
    for attr in 0u8..16 {
        let data = [9, 0x21, attr, 0x34, 0x12, 0x00, 0x04, 0x1A, 0x01];
        let d = DfuFunctionalDescriptor::from_bytes(&data).unwrap();
        assert_eq!(d.can_download, attr & 1 != 0);
        assert_eq!(d.can_upload, attr & 2 != 0);
        assert_eq!(d.manifestation_tolerant, attr & 4 != 0);
        assert_eq!(d.will_detach, attr & 8 != 0);
        assert_eq!(d.detach_timeout, 0x1234);
        assert_eq!(d.transfer_size, 1024);
        assert_eq!(d.dfu_version, 0x011A);
    }
    assert!(DfuFunctionalDescriptor::from_bytes(&[9, 0x21, 0, 0, 0, 0, 0, 0]).is_err());
}

#[test]
fn dfu_version_string_is_decimal() {
    let data = [9, 0x21, 0, 0, 0, 0, 0, 0x1A, 0x01];
    let d = DfuFunctionalDescriptor::from_bytes(&data).unwrap();
    assert_eq!(d.version_string(), "1.26");
}

#[test]
fn dfu_state_names() {
    assert_eq!(DfuState::from_byte(4).name(), "dfuDNBUSY");
    assert_eq!(DfuState::from_byte(200), DfuState::DfuError);
    assert_eq!(DfuStatus::from_byte(0x0E).name(), "errUNKNOWN");
    assert_eq!(DfuStatus::from_byte(0x42), DfuStatus::ErrStalledPkt);
}

#[test]
fn wait_transitions() {
    assert_eq!(block_step(DfuStatus::NoError, DfuState::DfuDnBusy), PollStep::SleepPollTimeout);
    assert_eq!(block_step(DfuStatus::NoError, DfuState::DfuDnloadIdle), PollStep::Ready);
    assert_eq!(block_step(DfuStatus::NoError, DfuState::DfuError), PollStep::ErrorState);
    assert_eq!(block_step(DfuStatus::NoError, DfuState::AppIdle), PollStep::Unexpected);
    assert_eq!(block_step(DfuStatus::ErrWrite, DfuState::DfuDnloadIdle), PollStep::StatusFailed);
    assert_eq!(manifest_step(DfuStatus::NoError, DfuState::DfuManifest), PollStep::SleepPollTimeout);
    assert_eq!(manifest_step(DfuStatus::NoError, DfuState::DfuIdle), PollStep::Ready);
    assert_eq!(manifest_step(DfuStatus::NoError, DfuState::DfuDnBusy), PollStep::SleepFixed);
}

#[test]
fn classify_scenarios() {
    let mut adb = record(0x18d1, 0x4ee2);
    adb.descriptor.device_class = Some(0xFF);
    assert_eq!(classify_device_protocols(&adb), vec![DeviceProtocol::Adb]);

    let apple = record(0x05ac, 0x12a0);
    assert_eq!(classify_device_protocols(&apple), vec![DeviceProtocol::AppleDevice]);

    let mut mtp = record(0x1234, 0x0001);
    mtp.descriptor.device_class = Some(0x06);
    mtp.descriptor.device_subclass = Some(0x01);
    mtp.descriptor.device_protocol = Some(0x01);
    assert_eq!(classify_device_protocols(&mtp), vec![DeviceProtocol::Mtp]);

    let none = record(0x1234, 0x5678);
    assert_eq!(classify_device_protocols(&none), vec![DeviceProtocol::Unknown]);
}

#[test]
fn classify_adding_tag_adds_protocol() {
    let mut dev = record(0x1234, 0x5678);
    dev.descriptor.product = Some("Media Transfer thing".to_string());
    assert_eq!(classify_device_protocols(&dev), vec![DeviceProtocol::Mtp]);
    dev.add_tag("ADB");
    assert_eq!(classify_device_protocols(&dev), vec![DeviceProtocol::Adb, DeviceProtocol::Mtp]);
    assert!(dev.has_tag("adb"));
    dev.add_tag("ADB");
    assert_eq!(dev.tags.len(), 1);
    dev.add_tag("adb");
    assert_eq!(dev.tags, vec!["ADB".to_string()]);
}

#[test]
fn classify_uses_lowercased_strings() {
    let mut dev = record(0x1234, 0x5678);
    dev.descriptor.product = Some("Android ADB Interface".to_string());
    dev.descriptor.device_class = Some(0xFF);
    assert_eq!(classify_device_protocols(&dev), vec![DeviceProtocol::Adb]);

    let mut fb = record(0x1234, 0x5678);
    fb.descriptor.product = Some("BootLoader".to_string());
    assert!(is_fastboot_device(&fb));
    assert!(is_fastboot_device(&record(0x05c6, 0x9008)));

    let mut ap = record(0x1234, 0x5678);
    ap.descriptor.manufacturer = Some("APPLE Inc.".to_string());
    assert!(is_apple_device(&ap));

    let mut android = record(0x1234, 0x5678);
    android.descriptor.manufacturer = Some("Android".to_string());
    android.descriptor.device_class = Some(0x00);
    assert!(is_mtp_device(&android));
    android.descriptor.device_class = Some(0x02);
    assert!(!is_mtp_device(&android));
}

#[test]
fn hex_id_string() {
    assert_eq!(UsbId::new(0x18d1, 0x4ee2).as_hex_string(), "18D1:4EE2");
}

#[test]
fn device_info_display_full() {
    let mut d = UsbDeviceInfo::new(0x00ab, 0x12cd);
    d.serial_number = Some("XYZ".to_string());
    d.bus_number = 3;
    d.device_address = 17;
    assert_eq!(d.display_string(), "USB Device [00ab:12cd] (S/N: XYZ) Bus 003 Device 017");
}

#[test]
fn port_path_errors() {
    assert!(matches!(parse_port_path("1"), Err(UsbError::Parse(_))));
    assert!(matches!(parse_port_path("1-2.x"), Err(UsbError::Parse(_))));
    assert!(matches!(parse_port_path("1-256"), Err(UsbError::Parse(_))));
    assert!(matches!(parse_port_path("1-"), Err(UsbError::Parse(_))));
    assert_eq!(parse_port_path("2-255.+7").unwrap(), vec![255, 7]);
}

#[test]
fn scan_skips_unreadable_candidates() {
    let d = DescriptorFields {
        vendor_id: 0x18d1,
        product_id: 0x4ee2,
        class_code: 0,
        sub_class_code: 0,
        protocol_code: 0,
        usb_major: 2,
        usb_minor: 1,
        usb_sub_minor: 0,
        device_major: 1,
        device_minor: 0,
        device_sub_minor: 0,
        num_configurations: 1,
    };
    let strings = || DeviceStrings { manufacturer: None, product: Some("Pixel".to_string()), serial_number: None };
    let cands = vec![
        Candidate { bus: 1, address: 3, descriptor: Some(d), strings: strings() },
        Candidate { bus: 1, address: 4, descriptor: None, strings: strings() },
        Candidate { bus: 2, address: 5, descriptor: Some(d), strings: strings() },
    ];
    let recs = collect_records(cands);
    assert_eq!(recs.len(), 2);
    assert_eq!(recs[0].location.address, Some(3));
    assert_eq!(recs[1].location.bus, Some(2));
    assert_eq!(recs[0].descriptor.usb_version.as_deref(), Some("2.1"));
    assert_eq!(recs[0].descriptor.product.as_deref(), Some("Pixel"));
    assert_eq!(bcd_version(2, 1, 0), 0x0210);
}

#[test]
fn line_finishing_strips_one_carriage_return() {
    assert_eq!(finish_line(b"abc\r".to_vec(), true).unwrap(), "abc");
    assert_eq!(finish_line(b"abc\r".to_vec(), false).unwrap(), "abc\r");
    assert_eq!(finish_line(b"a\r\r".to_vec(), true).unwrap(), "a\r");
    assert!(matches!(finish_line(vec![0xC3], true), Err(UsbError::Parse(_))));
}

#[test]
fn upload_and_block_decisions() {
    assert!(upload_continues(64, 64, 100, 64));
    assert!(!upload_continues(128, 64, 100, 64));
    assert!(!upload_continues(30, 30, 100, 64));
    assert!(!upload_continues(0, 0, 100, 64));
    assert_eq!(block_end(10, 0, 4), 4);
    assert_eq!(block_end(10, 8, 4), 10);
}

#[test]
fn poll_timeouts_are_recognised() {
    assert!(timeout_error(&UsbError::UsbLib(rusb::Error::Timeout)));
    assert!(!timeout_error(&UsbError::UsbLib(rusb::Error::Busy)));
    assert!(!timeout_error(&UsbError::Unknown("timeout".to_string())));
}
