use battery_control::pylontech_cli::{
    answer_text, apply_info, is_answer_complete, parse_bat, rating_digits, stat_values,
    strip_carriage_returns,
};
use battery_control::types::DeviceInfo;

const SAMPLE: &str = "bat\n@\nBattery  Volt     Curr     Tempr    Base State   Volt. State  Curr. State  Temp. State  SOC          Coulomb      BAL         \n0        3331     5852     23000    Charge       Normal       Normal       Normal       14%          6182 mAH      N\n1        3332     5852     23000    Charge       Normal       Normal       Normal       14%          6182 mAH      N\n5        3363     5852     23000    Charge       Normal       Normal       Normal       14%          6182 mAH      Y\nCommand completed successfully\n$$\npylon>";

#[test]
fn parses_cells_and_balancing() {
    let f = parse_bat(SAMPLE).expect("frame");
    assert_eq!(f.cells.len(), 3);
    assert_eq!(f.cells[0].millivolts, 3331);
    assert!(!f.cells[0].balancing);
    assert!(f.cells[2].balancing);
    assert_eq!(f.current_ma, 5852);
    assert_eq!(f.soc_percent, 14);
    assert_eq!(f.state, "Charge");
}

#[test]
fn flags_any_cell_state_that_is_not_normal() {
    let bad = SAMPLE.replace(
        "0        3331     5852     23000    Charge       Normal       Normal       Normal",
        "0        3331     5852     23000    Charge       High         Normal       Normal",
    );
    let f = parse_bat(&bad).expect("frame");
    assert_eq!(f.alarms, vec!["cell 0 voltage: High"]);
    assert!(parse_bat(SAMPLE).unwrap().alarms.is_empty());
}

#[test]
fn no_cell_rows_is_none() {
    assert!(parse_bat("Command completed successfully\npylon>").is_none());
    assert!(parse_bat("").is_none());
}

#[test]
fn crlf_lines_and_negative_current() {
    let f = parse_bat("0 3300 -1200 -5000 Dischg Normal Normal Normal 99%% 1 mAH N\r\n")
        .expect("frame");
    assert_eq!(f.current_ma, -1200);
    assert_eq!(f.temp_milli_c, -5000);
    assert_eq!(f.soc_percent, 99);
    assert_eq!(f.state, "Dischg");
    assert!(f.alarms.is_empty());
}

#[test]
fn alarms_name_the_cell_index_and_column() {
    let t = "0 3300 0 0 Charge Normal Normal Normal 5% 1 mAH N\n\
             1 3300 0 0 Fault Normal High Low 5% 1 mAH N\n";
    let f = parse_bat(t).unwrap();
    assert_eq!(
        f.alarms,
        vec!["cell 1 state: Fault", "cell 1 current: High", "cell 1 temperature: Low"]
    );
}


fn rated_ah(spec: &str) -> Option<f64> {
    rating_digits(spec).and_then(|d| d.parse().ok())
}

#[test]
fn reads_rating_from_specification() {
    assert_eq!(rated_ah("48V/50AH"), Some(50.0));
    assert_eq!(rated_ah("24V/100Ah"), Some(100.0));
    assert_eq!(rated_ah("48V"), None);
}

#[test]
fn maps_status_from_cells() {
    let f = parse_bat(SAMPLE).unwrap();
    assert_eq!(f.cells.len(), 3);
    assert!(f.cells[2].balancing);
    let pack_v = f.cells.iter().map(|c| c.millivolts as f64).sum::<f64>() / 1000.0;
    assert!((pack_v - 10.026).abs() < 1e-9);
}

#[test]
fn rating_digit_runs() {
    assert_eq!(rating_digits("48V/50.5ah").as_deref(), Some("50.5"));
    assert_eq!(rating_digits("AH").as_deref(), Some(""));
    assert_eq!(rating_digits("x100AH 200AH").as_deref(), Some("100"));
}

#[test]
fn info_answer_fills_identity() {
    let mut info = DeviceInfo {
        backend: "pylontech-cli".into(),
        manufacturer: Some("Pylontech".into()),
        ..Default::default()
    };
    let spec = apply_info(
        &mut info,
        "info\n@\nDevice address      : 1\nManufacturer        : Pylon\nSpecification       : 48V/50AH\nBarcode             : PPTAP01234\nMain Soft version   : B69.6\nBoard version       : PHANTOMSAV10R03\nCommand completed successfully\n$$\npylon>",
    );
    assert_eq!(spec.as_deref(), Some("48V/50AH"));
    assert_eq!(info.model.as_deref(), Some("Pylontech 48V/50AH"));
    assert_eq!(info.serial.as_deref(), Some("PPTAP01234"));
    assert_eq!(info.firmware.as_deref(), Some("B69.6"));
    assert_eq!(info.hardware.as_deref(), Some("PHANTOMSAV10R03"));
    assert_eq!(info.manufacturer.as_deref(), Some("Pylon"));

    let mut named = DeviceInfo::default();
    apply_info(&mut named, "Device name : US3000C\nSpecification : 48V/74AH\n");
    assert_eq!(named.model.as_deref(), Some("US3000C"));
}

#[test]
fn stat_answer_values() {
    let (soh, cycles) = stat_values("stat\nSOH             : 99\nCYCLE Times     : 123\nSOH : 98\n");
    assert_eq!(soh.as_deref(), Some("98"));
    assert_eq!(cycles.as_deref(), Some("123"));
    assert_eq!(stat_values("nothing here"), (None, None));
}

#[test]
fn prompt_ends_an_answer() {
    assert!(is_answer_complete(b"bat\r\n...\r\npylon>"));
    assert!(is_answer_complete(b"x pylon> \r\n"));
    assert!(!is_answer_complete(b"pylon"));
    assert!(!is_answer_complete(b""));
    assert!(!is_answer_complete(b"pylon>x"));
    assert_eq!(answer_text(b"a\r\nb\r\n"), "a\nb\n");
    assert_eq!(answer_text(&[0x61, 0xff]), "a\u{FFFD}");
}

#[test]
fn carriage_returns_are_stripped_from_decoded_text() {
    assert_eq!(strip_carriage_returns("a\r\nb\r"), "a\nb");
    assert_eq!(strip_carriage_returns(""), "");
    assert_eq!(strip_carriage_returns("\u{fffd}\r"), "\u{fffd}");
    assert_eq!(answer_text(b"x\r\n\xffy"), "x\n\u{fffd}y");
}
