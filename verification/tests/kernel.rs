use rust_crc_project::{crc16_modbus_baseline, crc16_modbus_optimized};

#[test]
fn empty_frame_is_initial_register() {
    assert_eq!(crc16_modbus_baseline(&[]), 0xFFFF);
    assert_eq!(crc16_modbus_optimized(&[]), 0xFFFF);
}

#[test]
fn known_vector_read_input_registers() {
    // Modbus read-input-registers request, a standard reference vector:
    // the wire carries 70 0D after these six bytes.
    let frame = [0x01, 0x04, 0x00, 0x00, 0x00, 0x0A];
    assert_eq!(crc16_modbus_baseline(&frame), 0x0D70);
    assert_eq!(crc16_modbus_optimized(&frame), 0x0D70);
}

#[test]
fn known_vector_read_holding_registers() {
    let frame = [0x01, 0x03, 0x00, 0x01, 0x00, 0x02];
    assert_eq!(crc16_modbus_baseline(&frame), 0xCB95);
    assert_eq!(crc16_modbus_optimized(&frame), 0xCB95);
}

#[test]
fn known_vector_single_bytes() {
    assert_eq!(crc16_modbus_baseline(&[0x00]), 0x40BF);
    assert_eq!(crc16_modbus_baseline(&[0xFF]), 0x00FF);
}

#[test]
fn variants_agree_on_long_frames() {
    // Frames longer than sixteen bytes exercise the unrolled path of the
    // optimized kernel, with tails of every residue.
    for len in 0..64usize {
        let frame: Vec<u8> = (0..len).map(|i| (i as u8).wrapping_mul(37).wrapping_add(11)).collect();
        assert_eq!(
            crc16_modbus_baseline(&frame),
            crc16_modbus_optimized(&frame),
            "variant mismatch at length {}",
            len
        );
    }
}

#[test]
fn variants_agree_on_full_frame() {
    let frame: Vec<u8> = (0..256usize).map(|i| i as u8).collect();
    assert_eq!(crc16_modbus_baseline(&frame), crc16_modbus_optimized(&frame));
}
