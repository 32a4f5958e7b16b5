use battery_control::discovery::{
    from_ble, from_probe, looks_like_uart, merge_discovered, probe_plan, resolve, BleFamily,
    DeviceClass, DiscoverOptions, Discovered, Locator, Probe,
};
use battery_control::Error;

fn dev(id: &str, label: &str) -> Discovered {
    Discovered {
        id: id.into(),
        label: label.into(),
        backend: "test",
        class: DeviceClass::Bms,
        locator: Locator::JkBle { id: id.into() },
    }
}

#[test]
fn resolve_prefers_exact_id() {
    let d = vec![dev("ble:AAAA", "C1000"), dev("ble:AAAB", "C1000")];
    assert_eq!(resolve(&d, "ble:AAAA").unwrap().id, "ble:AAAA");
}

#[test]
fn resolve_unique_prefix() {
    let d = vec![dev("ble:AAAA", "C1000"), dev("serial:/dev/ttyUSB0", "JK")];
    assert_eq!(resolve(&d, "serial:").unwrap().backend, "test");
    assert_eq!(resolve(&d, "ble:AA").unwrap().id, "ble:AAAA");
}

#[test]
fn resolve_ambiguous_prefix_errors() {
    let d = vec![dev("ble:AAAA", "C1000"), dev("ble:AAAB", "C1000 Gen 2")];
    assert!(resolve(&d, "ble:AAA").is_err());
}

#[test]
fn resolve_by_label_when_unique() {
    let d = vec![dev("ble:AAAA", "SOLIX C1000"), dev("serial:/x", "JK PB2A16S")];
    assert_eq!(resolve(&d, "pb2").unwrap().id, "serial:/x");
}

#[test]
fn resolve_duplicate_labels_error() {
    let d = vec![dev("ble:AAAA", "C1000"), dev("ble:AAAB", "C1000")];
    // name collision -> must use a hardware id
    assert!(resolve(&d, "c1000").is_err());
}

#[test]
fn resolve_error_texts() {
    let d = vec![dev("ble:AAAA", "C1000"), dev("ble:AAAB", "C1000 Gen 2")];
    match resolve(&d, "ble:AAA") {
        Err(Error::InvalidArgument(m)) => {
            assert_eq!(m, "ambiguous id prefix 'ble:AAA' matches 2 devices")
        }
        _ => panic!("expected an ambiguity error"),
    }
    match resolve(&d, "c1000") {
        Err(Error::InvalidArgument(m)) => assert_eq!(
            m,
            "'c1000' matches 2 devices by name; use a hardware id instead"
        ),
        _ => panic!("expected an ambiguity error"),
    }
    assert_eq!(
        resolve(&d, "xyz").err(),
        Some(Error::NotFound("xyz".to_string()))
    );
    assert_eq!(resolve(&[], "").err(), Some(Error::NotFound(String::new())));
}

#[test]
fn exact_id_wins_over_longer_ids_it_prefixes() {
    let d = vec![dev("ble:AAAB", "x"), dev("ble:AAA", "y"), dev("ble:AAA", "z")];
    let r = resolve(&d, "ble:AAA").unwrap();
    assert_eq!(r.label, "y");
}

#[test]
fn label_match_ignores_ascii_case() {
    let d = vec![dev("ble:1", "Kitchen Pack"), dev("ble:2", "Garage")];
    assert_eq!(resolve(&d, "KITCHEN").unwrap().id, "ble:1");
}

#[test]
fn default_options() {
    let o = DiscoverOptions::default();
    assert_eq!(o.ble_secs, 6);
    assert!(o.probe_serial);
    assert_eq!(o.serial_bauds, vec![9600, 115200]);
    assert_eq!(o.probe_timeout_secs, 4);
}

#[test]
fn uart_names() {
    assert!(looks_like_uart("/dev/ttyUSB0"));
    assert!(looks_like_uart("/dev/ttyACM1"));
    assert!(looks_like_uart("/dev/cu.usbserial-1410"));
    assert!(looks_like_uart("/dev/cu.SLAB_USBtoUART"));
    assert!(looks_like_uart("/dev/cu.wchusbserial1420"));
    assert!(!looks_like_uart("/dev/cu.Bluetooth-Incoming-Port"));
    assert!(!looks_like_uart("/dev/ttys004"));
    assert!(!looks_like_uart(""));
}

#[test]
fn probe_plan_order() {
    assert_eq!(
        probe_plan(&[9600, 115200]),
        vec![
            Probe::Jk { baud: 9600 },
            Probe::Jk { baud: 115200 },
            Probe::Jbd { baud: 9600 },
            Probe::Jbd { baud: 115200 },
            Probe::Daly,
            Probe::Pace { baud: 9600, address: 1 },
            Probe::Vedirect,
        ]
    );
    assert_eq!(
        probe_plan(&[]),
        vec![Probe::Daly, Probe::Pace { baud: 9600, address: 1 }, Probe::Vedirect]
    );
}

#[test]
fn probed_devices() {
    let d = from_probe("/dev/ttyUSB0", Probe::Jk { baud: 115200 }, None);
    assert_eq!(d.id, "serial:/dev/ttyUSB0");
    assert_eq!(d.label, "JK BMS");
    assert_eq!(d.backend, "jk");
    assert_eq!(d.class, DeviceClass::Bms);
    assert!(matches!(d.locator, Locator::JkSerial { ref port, baud: 115200 } if port == "/dev/ttyUSB0"));
    let v = from_probe("/dev/ttyUSB1", Probe::Vedirect, Some("BMV-712".to_string()));
    assert_eq!(v.label, "BMV-712");
    assert_eq!(v.backend, "vedirect");
    assert_eq!(v.class, DeviceClass::Monitor);
    let p = from_probe("COM3", Probe::Pace { baud: 9600, address: 1 }, None);
    assert_eq!(p.label, "PACE BMS");
    assert!(matches!(p.locator, Locator::PaceSerial { baud: 9600, address: 1, .. }));
    assert_eq!(from_probe("x", Probe::Daly, None).label, "Daly BMS");
    assert_eq!(from_probe("x", Probe::Jbd { baud: 9600 }, None).label, "JBD BMS");
}

#[test]
fn ble_devices() {
    let a = from_ble(BleFamily::Anker, "AA:BB".to_string(), Some("Solix C1000".to_string()));
    assert_eq!(a.id, "ble:AA:BB");
    assert_eq!(a.label, "Solix C1000");
    assert_eq!(a.backend, "anker");
    assert_eq!(a.class, DeviceClass::PowerStation);
    let j = from_ble(BleFamily::Jk, "u-1".to_string(), None);
    assert_eq!(j.label, "JK BMS");
    assert_eq!(j.backend, "jk");
    assert!(matches!(j.locator, Locator::JkBle { ref id } if id == "u-1"));
    assert_eq!(from_ble(BleFamily::Sok, "s".to_string(), None).label, "SOK");
    assert_eq!(from_ble(BleFamily::Renogy, "r".to_string(), None).label, "Renogy");
    assert_eq!(from_ble(BleFamily::Jbd, "j".to_string(), None).label, "JBD BMS");
}

#[test]
fn merge_keeps_first_of_each_id() {
    let merged = merge_discovered(vec![
        dev("ble:1", "sok"),
        dev("ble:2", "other"),
        dev("ble:1", "jk"),
        dev("serial:/dev/ttyUSB0", "jk"),
    ]);
    let ids: Vec<&str> = merged.iter().map(|d| d.id.as_str()).collect();
    assert_eq!(ids, vec!["ble:1", "ble:2", "serial:/dev/ttyUSB0"]);
    assert_eq!(merged[0].label, "sok");
    assert!(merge_discovered(vec![]).is_empty());
}
