use battery_control::sok::abc::{
    ascii_field, build_read, crc16, decode_registers, parse_response, read_ascii, response_len, FUNC_READ,
    TELEMETRY_COUNT, TELEMETRY_START, UNIT,
};

fn response(start: u16, regs: &[(u16, u16)]) -> Vec<u8> {
    // Build a contiguous register block covering min..=max of the addresses.
    let min = regs.iter().map(|(a, _)| *a).min().unwrap();
    let max = regs.iter().map(|(a, _)| *a).max().unwrap();
    assert_eq!(min, start);
    let count = (max - min + 1) as usize;
    let mut data = vec![0u8; count * 2];
    for &(a, v) in regs {
        let off = (a - start) as usize * 2;
        data[off] = (v >> 8) as u8;
        data[off + 1] = v as u8;
    }
    let mut frame = vec![UNIT, FUNC_READ, (count * 2) as u8];
    frame.extend_from_slice(&data);
    let crc = crc16(&frame);
    frame.push(crc as u8);
    frame.push((crc >> 8) as u8);
    frame
}

#[test]
fn crc16_modbus_check_vector() {
    // CRC-16/MODBUS("123456789") == 0x4B37
    assert_eq!(crc16(b"123456789"), 0x4B37);
}

#[test]
fn read_request_frame() {
    let f = build_read(TELEMETRY_START, TELEMETRY_COUNT);
    assert_eq!(&f[..6], &[0x01, 0x03, 0x00, 0x80, 0x00, 0x7a]);
    let crc = crc16(&f[..6]);
    assert_eq!(f[6], crc as u8);
    assert_eq!(f[7], (crc >> 8) as u8);
}

#[test]
fn rejects_bad_crc() {
    let mut frame = response(0x0080, &[(0x0080, 1)]);
    let n = frame.len();
    frame[n - 1] ^= 0xFF;
    assert!(parse_response(&frame, 0x0080).is_err());
}

#[test]
fn response_len_of_data_and_exception_frames() {
    assert_eq!(response_len(&[0x01]), None);
    assert_eq!(response_len(&[0x01, 0x83]), Some(5));
    assert_eq!(response_len(&[0x01, 0x03]), None);
    assert_eq!(response_len(&[0x01, 0x03, 0x04]), Some(9));
}

#[test]
fn parse_response_errors_name_the_failed_check() {
    assert_eq!(parse_response(&[1, 3, 0, 0], 0), Err("frame too short"));
    let ok = response(0x0080, &[(0x0080, 7), (0x0081, 9)]);
    let mut exc = vec![UNIT, 0x83, 0x02];
    let crc = crc16(&exc);
    exc.push(crc as u8);
    exc.push((crc >> 8) as u8);
    assert_eq!(parse_response(&exc, 0), Err("modbus exception"));
    let mut wrong = vec![UNIT, 0x04, 0x00];
    let crc = crc16(&wrong);
    wrong.push(crc as u8);
    wrong.push((crc >> 8) as u8);
    assert_eq!(parse_response(&wrong, 0), Err("unexpected function code"));
    let mut odd = vec![UNIT, FUNC_READ, 0x01, 0xAA];
    let crc = crc16(&odd);
    odd.push(crc as u8);
    odd.push((crc >> 8) as u8);
    assert_eq!(parse_response(&odd, 0), Err("odd register byte count"));
    let regs = parse_response(&ok, 0x0080).unwrap();
    assert_eq!(regs.len(), 2);
    assert_eq!(regs[&0x0080], 7);
    assert_eq!(regs[&0x0081], 9);
}

#[test]
fn decode_synthetic_telemetry() {
    let regs = [
        (0x0080u16, 150u16),
        (0x0081, 1320),
        (0x0082, 88),
        (0x0084, 8000),
        (0x0085, 10000),
        (0x0091, 4),
        (0x0095, 250),
        (0x0096, 251),
        (0x009b, 3300),
        (0x009c, 3301),
        (0x009d, 3299),
        (0x009e, 3302),
    ];
    let frame = response(0x0080, &regs);
    assert_eq!(response_len(&frame), Some(frame.len()));
    let map = parse_response(&frame, 0x0080).unwrap();
    let d = decode_registers(&map);
    let voltage = d.voltage.unwrap() as f32 * 0.01;
    let current = d.current.unwrap() as f32 * 0.01;
    assert!((voltage - 13.20).abs() < 1e-2);
    assert!((current - 1.50).abs() < 1e-2);
    assert_eq!(d.soc, Some(88));
    assert!((d.capacity.unwrap() as f32 * 0.01 - 100.0).abs() < 1e-2);
    assert!((d.remaining.unwrap() as f32 * 0.01 - 80.0).abs() < 1e-2);
    assert_eq!(d.cells.len(), 4);
    assert!((d.t1.unwrap() as f32 * 0.1 - 25.0).abs() < 1e-2);
    assert_eq!(d.temps.len(), 4);
    assert!((d.temps[1] as f32 * 0.1 - 25.1).abs() < 1e-2);
    assert_eq!(d.current, Some(150));
    assert_eq!(d.voltage, Some(1320));
    assert_eq!(d.soc, Some(88));
    assert_eq!(d.remaining, Some(8000));
    assert_eq!(d.capacity, Some(10000));
    assert_eq!(d.cells, vec![3300, 3301, 3299, 3302]);
    assert_eq!(d.t1, Some(250));
    // t1..t4 are all present in the contiguous block (0x0097/0x0098 read 0).
    assert_eq!(d.temps, vec![250, 251, 0, 0]);
}

#[test]
fn ascii_run_is_decoded_without_nuls_and_trimmed() {
    let mut map = std::collections::HashMap::new();
    map.insert(0x00dcu16, u16::from_be_bytes([b' ', b'S']));
    map.insert(0x00dd, u16::from_be_bytes([b'K', 0]));
    map.insert(0x00de, 0xFFFF);
    map.insert(0x00df, u16::from_be_bytes([b'X', b'X']));
    assert_eq!(read_ascii(&map, 0x00dc, 10).as_deref(), Some("SK"));
    assert_eq!(read_ascii(&map, 0x00e6, 21), None);
}

#[test]
fn register_text_drops_nuls_and_trims() {
    assert_eq!(ascii_field(" AB\0C\0\0 "), Some("ABC".to_string()));
    assert_eq!(ascii_field("\0\0  "), None);
    assert_eq!(ascii_field("x y"), Some("x y".to_string()));
}

#[test]
fn well_formed_response_is_accepted_whole() {
    let data: Vec<u8> = vec![0x01, 0x02, 0xab, 0xcd, 0xff, 0x00];
    let mut frame = vec![UNIT, FUNC_READ, data.len() as u8];
    frame.extend_from_slice(&data);
    let crc = crc16(&frame);
    frame.push(crc as u8);
    frame.push((crc >> 8) as u8);
    assert_eq!(response_len(&frame), Some(frame.len()));
    let regs = parse_response(&frame, 0xfffd).expect("accepted");
    assert_eq!(regs.len(), 3);
    assert_eq!(regs.get(&0xfffd), Some(&0x0102));
    assert_eq!(regs.get(&0xfffe), Some(&0xabcd));
    assert_eq!(regs.get(&0xffff), Some(&0xff00));
}

#[test]
fn pack_voltage_falls_back_to_the_cell_sum() {
    let mut regs: std::collections::HashMap<u16, u16> = std::collections::HashMap::new();
    regs.insert(0x0091, 3);
    regs.insert(0x009b, 3300);
    regs.insert(0x009c, 3301);
    regs.insert(0x009d, 3299);
    let d = decode_registers(&regs);
    assert_eq!(d.voltage, None);
    assert_eq!(d.pack_mv, 9900);
    regs.insert(0x0081, 0xFFFF);
    assert_eq!(decode_registers(&regs).pack_mv, 9900);
    regs.insert(0x0081, 1320);
    assert_eq!(decode_registers(&regs).pack_mv, 13200);
    let empty: std::collections::HashMap<u16, u16> = std::collections::HashMap::new();
    assert_eq!(decode_registers(&empty).pack_mv, 0);
}
