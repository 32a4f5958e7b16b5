use battery_control::sok::ee::{
    capacity_field, cells_field, command, crc8, header, info_fields, snapshot, temp_field,
    FrameSet, CMD_INFO, HDR_CAP, HDR_CELLS, HDR_INFO, HDR_TEMP,
};
use battery_control::sok::{dis_text, dis_trimmed, name_is_sok, scanned, Variant};

#[test]
fn crc8_maxim_check_vector() {
    // CRC-8/MAXIM("123456789") == 0xA1
    assert_eq!(crc8(b"123456789"), 0xA1);
}

#[test]
fn command_frame_shape() {
    let f = command(CMD_INFO);
    assert_eq!(&f[..5], &[0xEE, 0xC1, 0x00, 0x00, 0x00]);
    assert_eq!(f[5], crc8(&f[..5]));
}

#[test]
fn parse_info_fields() {
    let mut b = vec![0u8; 20];
    b[0] = 0xCC;
    b[1] = 0xF0;
    // current +1.500 A -> 1500 = 0xDC 0x05 0x00 (LE i24)
    b[5] = 0xDC;
    b[6] = 0x05;
    b[7] = 0x00;
    b[14..16].copy_from_slice(&42u16.to_le_bytes()); // cycles
    b[16..18].copy_from_slice(&87u16.to_le_bytes()); // soc
    let (current_ma, cycles, soc) = info_fields(&b).unwrap();
    let current = current_ma as f32 / 1000.0;
    assert!((current - 1.5).abs() < 1e-3);
    assert_eq!(cycles, 42);
    assert_eq!(soc, 87);
    assert_eq!(header(&b), Some(HDR_INFO));
}

#[test]
fn parse_info_negative_current() {
    let mut b = vec![0u8; 20];
    // -2.000 A -> -2000 = 0x1000000 - 2000 = 0xFFF830 LE bytes 30 F8 FF
    b[5] = 0x30;
    b[6] = 0xF8;
    b[7] = 0xFF;
    let (current_ma, _, _) = info_fields(&b).unwrap();
    let current = current_ma as f32 / 1000.0;
    assert!((current + 2.0).abs() < 1e-3);
}

#[test]
fn parse_temp_capacity() {
    let mut t = vec![0u8; 20];
    t[5..7].copy_from_slice(&25i16.to_le_bytes());
    assert_eq!(temp_field(&t).map(|v| v as f32), Some(25.0));

    let mut c = vec![0u8; 20];
    // capacity 100 Ah -> 100*128 = 12800 = 0x003200 BE bytes 00 32 00
    c[5] = 0x00;
    c[6] = 0x32;
    c[7] = 0x00;
    assert_eq!(capacity_field(&c).map(|v| v as f32 / 128.0), Some(100.0));
}

#[test]
fn parse_cells_by_index() {
    let mut b = vec![0u8; 20];
    // four blocks of [_, idx, v_lo, v_hi] starting at offset 2
    for (x, (idx, mv)) in [(1u8, 3300u16), (2, 3301), (3, 3299), (4, 3302)]
        .into_iter()
        .enumerate()
    {
        b[2 + x * 4] = idx;
        b[3 + x * 4..5 + x * 4].copy_from_slice(&mv.to_le_bytes());
    }
    let cells = cells_field(&b).unwrap();
    assert!((cells[0] as f32 / 1000.0 - 3.300).abs() < 1e-4);
    assert!((cells[3] as f32 / 1000.0 - 3.302).abs() < 1e-4);

    let data = snapshot(
        &{
            let mut i = vec![0u8; 20];
            i[16] = 50;
            i
        },
        &{
            let mut t = vec![0u8; 20];
            t[5] = 20;
            t
        },
        &{
            let mut c = vec![0u8; 20];
            c[6] = 0x32;
            c
        },
        &b,
    )
    .unwrap();
    assert_eq!(data.soc, 50);
    let volts: Vec<f32> = data.cells.iter().map(|&mv| mv as f32 / 1000.0).collect();
    let voltage = volts.iter().sum::<f32>() / volts.len() as f32 * 4.0;
    assert!((voltage - 3.3005 * 4.0).abs() < 1e-2);
}

#[test]
fn info_fields_reject_short_frames() {
    assert_eq!(info_fields(&[0u8; 19]), None);
    assert_eq!(capacity_field(&[0u8; 3]), None);
    assert_eq!(temp_field(&[0u8; 19]), None);
}

#[test]
fn negative_temperature_field() {
    let mut t = vec![0u8; 20];
    t[5..7].copy_from_slice(&(-7i16).to_le_bytes());
    assert_eq!(temp_field(&t), Some(-7));
}

fn frame(hdr: u16, body: &[(usize, u8)]) -> Vec<u8> {
    let mut f = vec![0u8; 20];
    f[0] = (hdr >> 8) as u8;
    f[1] = hdr as u8;
    for &(i, v) in body {
        f[i] = v;
    }
    f
}

#[test]
fn reads_snapshot() {
    // info: soc 60 at offset 16
    let info = frame(HDR_INFO, &[(16, 60)]);
    let temp = frame(HDR_TEMP, &[(5, 21)]);
    let cap = frame(HDR_CAP, &[(6, 0x32)]); // 100 Ah
    let mut cells = frame(HDR_CELLS, &[]);
    for (x, (idx, mv)) in [(1u8, 3300u16), (2, 3300), (3, 3300), (4, 3300)]
        .into_iter()
        .enumerate()
    {
        cells[2 + x * 4] = idx;
        cells[3 + x * 4..5 + x * 4].copy_from_slice(&mv.to_le_bytes());
    }
    // Interleave an unrelated frame to prove header matching.
    let noise = frame(0xCCF1, &[]);
    let mut set = FrameSet::new();
    let first = [HDR_INFO, HDR_TEMP];
    for f in [info, noise.clone(), temp] {
        set.offer(f, &first);
    }
    assert!(set.has_all(&first));
    let second = [HDR_CAP, HDR_CELLS];
    assert!(!set.has_all(&second));
    for f in [noise, cap, cells] {
        set.offer(f, &second);
    }
    assert!(set.has_all(&second));
    assert!(set.get(0xCCF1).is_none());
    let d = snapshot(
        set.get(HDR_INFO).unwrap(),
        set.get(HDR_TEMP).unwrap(),
        set.get(HDR_CAP).unwrap(),
        set.get(HDR_CELLS).unwrap(),
    )
    .unwrap();
    assert_eq!(d.soc, 60);
    assert_eq!(d.cells.len(), 4);
    let voltage = d.cells.iter().map(|&mv| mv as f32 / 1000.0).sum::<f32>();
    assert!((voltage - 13.2).abs() < 1e-2);
    assert!((d.capacity as f32 / 128.0 - 100.0).abs() < 1e-2);
}

#[test]
fn later_frame_with_same_header_replaces_earlier() {
    let mut set = FrameSet::new();
    set.offer(frame(HDR_INFO, &[(16, 1)]), &[HDR_INFO]);
    set.offer(frame(HDR_INFO, &[(16, 2)]), &[HDR_INFO]);
    assert_eq!(set.get(HDR_INFO).unwrap()[16], 2);
    set.offer(vec![], &[HDR_INFO]);
    assert_eq!(set.get(HDR_INFO).unwrap()[16], 2);
}

#[test]
fn cells_are_placed_by_index() {
    let mut b = vec![0u8; 20];
    for (x, (idx, mv)) in [(3u8, 3300u16), (1, 3301), (9, 3299), (2, 3302)]
        .into_iter()
        .enumerate()
    {
        b[2 + x * 4] = idx;
        b[3 + x * 4..5 + x * 4].copy_from_slice(&mv.to_le_bytes());
    }
    assert_eq!(cells_field(&b), Some([3301, 3302, 3300, 0]));
}

#[test]
fn header_needs_two_bytes() {
    assert_eq!(header(&[0xCC]), None);
}

#[test]
fn variant_names_and_sok_names() {
    assert_eq!(Variant::Ee.as_str(), "ee");
    assert_eq!(Variant::Abc.as_str(), "abc");
    assert!(name_is_sok(Some("SOK-AA52810")));
    assert!(name_is_sok(Some("sk12v100")));
    assert!(name_is_sok(Some("ABC-BMS")));
    assert!(!name_is_sok(Some("JK-B2A24S")));
    assert!(!name_is_sok(None));
}

#[test]
fn scanned_peripherals_keep_only_sok_names() {
    let d = scanned("id1".to_string(), Some("SOK-AA12487".to_string()), Some(-70), true, true).unwrap();
    assert_eq!(d.variant, Some(Variant::Abc));
    assert_eq!(d.id, "id1");
    let e = scanned("id2".to_string(), Some("sk12v".to_string()), None, false, true).unwrap();
    assert_eq!(e.variant, Some(Variant::Ee));
    assert_eq!(scanned("id3".to_string(), Some("ABC".to_string()), None, false, false).unwrap().variant, None);
    assert!(scanned("id4".to_string(), Some("JK_B2A8S".to_string()), None, false, true).is_none());
    assert!(scanned("id5".to_string(), None, None, true, false).is_none());
}

#[test]
fn device_information_strings() {
    assert_eq!(dis_text(b"  SOK\0\0").as_deref(), Some("SOK"));
    assert_eq!(dis_text(b"\0\0\0").as_deref(), None);
    assert_eq!(dis_text(b"").as_deref(), None);
    assert_eq!(dis_text(b"\tV1.2 \n").as_deref(), Some("V1.2"));
    assert_eq!(dis_text(&[0x41, 0xff]).as_deref(), Some("A\u{FFFD}"));
}

#[test]
fn characteristic_text_is_trimmed_of_padding() {
    assert_eq!(dis_trimmed("\0 SOK-24V100 \0\0"), Some("SOK-24V100".to_string()));
    assert_eq!(dis_trimmed("a\0b"), Some("a\0b".to_string()));
    assert_eq!(dis_trimmed(" \0\t"), None);
    assert_eq!(dis_text(b"\0ABC\xff\0"), Some("ABC\u{fffd}".to_string()));
}
