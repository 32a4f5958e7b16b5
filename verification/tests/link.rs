use battery_control::link::{
    char_uuid, jk_scanned, parse_pack_address, BluetoothTarget, BtDevice, CanTarget, SerialTarget,
};
use battery_control::Error;

#[test]
fn transport_can_test_can_transport_parsing() {
    let transport = CanTarget::from_target("can:can0,0x18ff0000,0x18fe0000");
    assert!(transport.is_ok());
    let t = transport.unwrap();
    assert_eq!(t.interface, "can0");
    assert_eq!(t.rx_id, 0x18ff0000);
    assert_eq!(t.tx_id, 0x18fe0000);
}

#[test]
fn transport_can_test_can_transport_parsing_without_dev() {
    let transport = CanTarget::from_target("can:/dev/can0,0x18ff0000,0x18fe0000");
    assert!(transport.is_ok());
    let t = transport.unwrap();
    assert_eq!(t.interface, "/dev/can0");
}

#[test]
fn transport_can_test_can_transport_invalid_format() {
    let transport = CanTarget::from_target("can:/dev/can0");
    assert!(transport.is_err());
}

#[test]
fn transport_can_test_can_transport_invalid_ids() {
    let transport = CanTarget::from_target("can:/dev/can0,invalid,0x18fe0000");
    assert!(transport.is_err());
}

#[test]
fn can_test_can_transport_parsing() {
    let transport = CanTarget::from_target("can:can0,0x18ff0000,0x18fe0000");
    assert!(transport.is_ok());
    let t = transport.unwrap();
    assert_eq!(t.interface, "can0");
    assert_eq!(t.rx_id, 0x18ff0000);
    assert_eq!(t.tx_id, 0x18fe0000);
}

#[test]
fn can_test_can_transport_parsing_without_dev() {
    let transport = CanTarget::from_target("can:/dev/can0,0x18ff0000,0x18fe0000");
    assert!(transport.is_ok());
    let t = transport.unwrap();
    assert_eq!(t.interface, "/dev/can0");
}

#[test]
fn can_test_can_transport_invalid_format() {
    let transport = CanTarget::from_target("can:/dev/can0");
    assert!(transport.is_err());
}

#[test]
fn can_test_can_transport_invalid_ids() {
    let transport = CanTarget::from_target("can:/dev/can0,invalid,0x18fe0000");
    assert!(transport.is_err());
}

#[test]
fn can_target_details() {
    let t = CanTarget::from_target("can:can:vcan1,0x0x1f,ff,extra").unwrap();
    assert_eq!(t.interface, "vcan1");
    assert_eq!(t.rx_id, 0x1f);
    assert_eq!(t.tx_id, 0xff);
    assert_eq!(
        CanTarget::from_target("can0,1").err(),
        Some(Error::Transport(
            "Invalid CAN target format. Use: can:can0,rx_id,tx_id".to_string()
        ))
    );
    assert_eq!(
        CanTarget::from_target("can0,1,").err(),
        Some(Error::Transport("Invalid TX CAN ID".to_string()))
    );
    assert_eq!(
        CanTarget::from_target("can0,,1").err(),
        Some(Error::Transport("Invalid RX CAN ID".to_string()))
    );
    assert!(CanTarget::from_target("can0,1ffffffff,1").is_err());
}

#[test]
fn can_framing_and_filter() {
    let t = CanTarget::new("can0", 0x18ff0000, 0xF8fe0000);
    let (id, payload) = t.tx_frame(&[1, 2, 3, 4, 5, 6, 7, 8, 9, 10]);
    assert_eq!(id, 0x18fe0000);
    assert_eq!(payload, vec![1, 2, 3, 4, 5, 6, 7, 8]);
    assert_eq!(t.tx_frame(&[7]).1, vec![7]);
    assert!(t.accepts(0x18ff0000));
    assert!(t.accepts(0xE0ff0000 | 0x18ff0000));
    assert!(!t.accepts(0x18ff0001));
}

#[test]
fn serial_targets() {
    let t = SerialTarget::from_target("/dev/ttyUSB1,115200");
    assert_eq!(t.port, "/dev/ttyUSB1");
    assert_eq!(t.baud, 115200);
    let d = SerialTarget::from_target("/dev/ttyS0");
    assert_eq!(d.baud, 9600);
    assert_eq!(SerialTarget::from_target("COM3,fast").baud, 9600);
    assert_eq!(SerialTarget::from_target("").port, "");
}

#[test]
fn characteristic_uuids() {
    assert_eq!(char_uuid(None), "0000ffe1-0000-1000-8000-00805f9b34fb");
    assert_eq!(char_uuid(Some("ffe2")), "0000ffe2-0000-1000-8000-00805f9b34fb");
    assert_eq!(char_uuid(Some(" 0xfff1 ")), "0000fff1-0000-1000-8000-00805f9b34fb");
    assert_eq!(char_uuid(Some("0x1234567")), "0x1234567");
    let full = "6e400003-b5a3-f393-e0a9-e50e24dcca9e";
    assert_eq!(char_uuid(Some(full)), full);
    let t = BluetoothTarget::from_target("AA:BB:CC:DD:EE:FF,ffe3");
    assert_eq!(t.target, "AA:BB:CC:DD:EE:FF");
    assert_eq!(t.char_uuid, "0000ffe3-0000-1000-8000-00805f9b34fb");
    let plain = BluetoothTarget::from_target("peripheral-id");
    assert_eq!(plain.char_uuid, "0000ffe1-0000-1000-8000-00805f9b34fb");
}

#[test]
fn pack_addresses() {
    assert_eq!(parse_pack_address("REPT280-00"), Some(0));
    assert_eq!(parse_pack_address("JK-PB-17"), Some(17));
    assert_eq!(parse_pack_address("JK_B2A24S"), None);
    assert_eq!(parse_pack_address("pack-7"), None);
    assert_eq!(parse_pack_address("pack-123"), None);
    assert_eq!(parse_pack_address("pack-0a"), None);
    assert_eq!(parse_pack_address("-99"), Some(99));
    let d = BtDevice::scanned(Some("REPT280-03".to_string()), "id".to_string(), Some(-60));
    assert_eq!(d.address, Some(3));
    assert_eq!(BtDevice::scanned(None, "id".to_string(), None).address, None);
}

#[test]
fn jk_scan_filter() {
    let d = jk_scanned(Some("jk_B2A24S".to_string()), "p1".to_string(), Some(-50), false).unwrap();
    assert_eq!(d.name.as_deref(), Some("jk_B2A24S"));
    assert_eq!(d.address, None);
    let renamed = jk_scanned(Some("Garage".to_string()), "p2".to_string(), None, true).unwrap();
    assert_eq!(renamed.id, "p2");
    let unnamed = jk_scanned(Some(String::new()), "p3".to_string(), None, true).unwrap();
    assert_eq!(unnamed.name, None);
    assert!(jk_scanned(Some("SOK-1".to_string()), "p4".to_string(), None, false).is_none());
    assert!(jk_scanned(None, "p5".to_string(), None, false).is_none());
}
