use battery_control::pylontech_can::{decode_alarms, PylontechState};

#[test]
fn decodes_core_frames() {
    let mut s = PylontechState::new();
    // 0x355: SOC=87, SOH=100
    s.feed(0x355, &[87, 0, 100, 0, 0, 0, 0, 0]);
    // 0x356: V=53.12 (5312*0.01), I=-15.0 (-150*0.1), T=21.5 (215*0.1)
    let i = (-150i16).to_le_bytes();
    s.feed(0x356, &[0xC0, 0x14, i[0], i[1], 0xD7, 0x00, 0, 0]);
    // 0x351: chg V limit 55.2 (552), chg I 100.0 (1000), dis I 100.0, dis V 45.0 (450)
    s.feed(0x351, &[0x28, 0x02, 0xE8, 0x03, 0xE8, 0x03, 0xC2, 0x01]);

    assert!(s.is_ready());
    assert_eq!(s.soc.map(f32::from), Some(87.0));
    assert_eq!(s.soh.map(f32::from), Some(100.0));
    let voltage = s.voltage.unwrap() as f32 * 0.01;
    let current = s.current.unwrap() as f32 * 0.1;
    assert!((voltage - 53.12).abs() < 1e-3);
    assert!((current - (-15.0)).abs() < 1e-3);
    assert!((s.temperature.unwrap() as f32 * 0.1 - 21.5).abs() < 1e-3);
    // discharging => power out positive, no power in
    let power = voltage * current;
    assert!(power < 0.0);
    assert!((power.abs() - 53.12 * 15.0).abs() < 0.1);
    assert!((s.charge_current_limit.unwrap() as f32 * 0.1 - 100.0).abs() < 1e-3);
    assert_eq!(s.charge_voltage_limit, Some(552));
    assert_eq!(s.discharge_voltage_limit, Some(450));
    assert_eq!(s.discharge_current_limit, Some(1000));
}

#[test]
fn decodes_alarms() {
    let mut s = PylontechState::new();
    // protection byte: bit2 (under-voltage) + bit5 (charge over-current)
    s.feed(0x359, &[(1 << 2) | (1 << 5), 0, 0, 0]);
    assert!(s.alarms.iter().any(|a| a.contains("under-voltage")));
    assert!(s.alarms.iter().any(|a| a.contains("charge over-current")));
}

#[test]
fn ignores_short_and_unknown() {
    let mut s = PylontechState::new();
    s.feed(0x355, &[1]); // too short
    s.feed(0x999, &[0; 8]); // unknown id
    assert!(!s.is_ready());
}

#[test]
fn alarm_texts_in_bit_order() {
    assert_eq!(
        decode_alarms(&[0xFE, 0xA6]),
        vec![
            "protection: cell over-voltage",
            "protection: cell under-voltage",
            "protection: pack over-voltage",
            "protection: pack under-voltage",
            "protection: charge over-current",
            "protection: discharge over-current",
            "protection: over-temperature",
            "warning: cell high-voltage",
            "warning: cell low-voltage",
            "warning: high current",
            "warning: high temperature",
        ]
    );
    // bit 0 of either byte means nothing; a one-byte frame has no warnings
    assert!(decode_alarms(&[0x01, 0x01]).is_empty());
    assert_eq!(decode_alarms(&[0x80]), vec!["protection: over-temperature"]);
}

#[test]
fn enable_flags_and_replaced_alarms() {
    let mut s = PylontechState::new();
    s.feed(0x35C, &[0xC0]);
    assert_eq!(s.charge_enabled, Some(true));
    assert_eq!(s.discharge_enabled, Some(true));
    s.feed(0x35C, &[0x80]);
    assert_eq!(s.discharge_enabled, Some(false));
    s.feed(0x35C, &[]);
    assert_eq!(s.charge_enabled, Some(true));
    s.feed(0x359, &[0x02, 0, 0, 0]);
    assert_eq!(s.alarms.len(), 1);
    s.feed(0x359, &[0, 0, 0, 0]);
    assert!(s.alarms.is_empty());
    s.feed(0x356, &[0x10, 0x27, 0, 0, 0, 0]);
    assert!(s.is_ready());
    assert_eq!(s.voltage, Some(10000));
}
