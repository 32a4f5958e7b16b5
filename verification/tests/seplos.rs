use battery_control::seplos::{decode_pia, decode_pib, model_name, PIA_COUNT, PIB_COUNT};
use battery_control::sok::abc::crc16;

/// Wrap register values into a verified-shaped 0x04 response frame.
fn frame(regs: &[u16]) -> Vec<u8> {
    let mut f = vec![0x00u8, 0x04, (regs.len() * 2) as u8];
    for &v in regs {
        f.push((v >> 8) as u8);
        f.push(v as u8);
    }
    let crc = crc16(&f);
    f.push(crc as u8);
    f.push((crc >> 8) as u8);
    f
}

fn temp_c(raw: u16) -> f32 {
    raw as f32 * 0.1 - 273.15
}

#[test]
fn decode_real_pia() {
    // Captured from a real BMS16S200A.
    let regs = [
        5236, 1301, 3800, 30400, 64, 125, 1000, 2, 3272, 2837, 3275, 3268, 2845, 2831, 0, 180,
        180, 1000,
    ];
    assert_eq!(regs.len(), PIA_COUNT as usize);
    let f = frame(&regs);
    let d = decode_pia(&f);
    assert!((d.voltage as f32 * 0.01 - 52.36).abs() < 1e-2);
    assert!((d.current as f32 * 0.01 - 13.01).abs() < 1e-2);
    assert!((d.remaining as f32 * 0.01 - 38.0).abs() < 1e-2);
    assert!((d.total as f32 * 0.01 - 304.0).abs() < 1e-2);
    assert!((d.soc as f32 * 0.1 - 12.5).abs() < 1e-2);
    assert!((d.soh as f32 * 0.1 - 100.0).abs() < 1e-2);
    assert_eq!(d.cycles, 2);
}

#[test]
fn decode_real_pib() {
    let regs = [
        3273, 3273, 3268, 3272, 3274, 3274, 3275, 3275, 3274, 3273, 3273, 3270, 3271, 3271, 3270,
        3272, 2842, 2833, 2831, 2845, 2731, 2731, 2731, 2731, 2833, 2829,
    ];
    assert_eq!(regs.len(), PIB_COUNT as usize);
    let f = frame(&regs);
    let d = decode_pib(&f);
    assert_eq!(d.cells.len(), 16);
    assert!((d.cells[0] as f32 * 0.001 - 3.273).abs() < 1e-3);
    assert_eq!(d.cell_temps.len(), 4);
    assert!((temp_c(d.cell_temps[0]) - 11.05).abs() < 1e-2); // 2842 * 0.1 - 273.15
    assert!((temp_c(d.ambient_temp) - 10.15).abs() < 1e-2); // 2833
    assert!((temp_c(d.power_temp) - 9.75).abs() < 1e-2); // 2829
    assert_eq!(model_name(d.cells.len()), "Seplos 16S");
}

#[test]
fn unfitted_cells_and_negative_current() {
    let mut regs = vec![0u16; 26];
    regs[0] = 3300;
    regs[2] = 3301;
    let d = decode_pib(&frame(&regs));
    assert_eq!(d.cells, vec![3300, 3301]);
    let mut pia = vec![0u16; 18];
    pia[1] = (-250i16) as u16;
    assert_eq!(decode_pia(&frame(&pia)).current, -250);
    assert_eq!(model_name(0), "Seplos 0S");
}
