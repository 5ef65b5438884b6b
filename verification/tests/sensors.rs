use air_monitor::sensors::{
    command_with_arg, crc8, data_ready_value, decode_word, fresh_pm_reading, is_data_ready, level_color,
    measurement_bits, parse_pms_frame, pm_level, scd30_interval_command, scd30_start_command,
};

#[test]
fn crc8_matches_sensirion_example() {
    assert_eq!(crc8(&[0xBE, 0xEF]), 0x92);
    assert_eq!(crc8(&[0x00, 0x02]), 0xE3);
    assert_eq!(crc8(&[]), 0xFF);
}

#[test]
fn crc8_of_data_with_its_crc_is_zero() {
    for data in [vec![0xBEu8, 0xEF], vec![0x00, 0x02], vec![1, 2, 3, 4, 5], vec![]] {
        let mut with = data.clone();
        with.push(crc8(&data));
        assert_eq!(crc8(&with), 0);
    }
}

#[test]
fn interval_command_carries_crc() {
    assert_eq!(scd30_interval_command(2), vec![0x46, 0x00, 0x00, 0x02, 0xE3]);
    assert_eq!(command_with_arg(0x1234, 0xBEEF), vec![0x12, 0x34, 0xBE, 0xEF, 0x92]);
    assert_eq!(scd30_start_command(), vec![0x00, 0x10]);
}

#[test]
fn command_argument_reads_back_as_valid_word() {
    for arg in [0u16, 2, 0x00FF, 0xBEEF, 0xFFFF] {
        let bytes = command_with_arg(0x4600, arg);
        assert_eq!(decode_word(&bytes[2..5]), (arg, true));
    }
}

#[test]
fn word_decoding_checks_crc() {
    assert_eq!(decode_word(&[0xBE, 0xEF, 0x92]), (0xBEEF, true));
    assert_eq!(decode_word(&[0xBE, 0xEF, 0x93]), (0xBEEF, false));
    assert_eq!(data_ready_value(&[0x00, 0x01, 0xB0]), 1);
    assert!(is_data_ready(Some(1)));
    assert!(!is_data_ready(Some(0)));
    assert!(!is_data_ready(None));
}

#[test]
fn measurement_frame_gives_float_bits() {
    let frame = [
        0x43, 0xC8, 0xDB, 0x00, 0x00, 0x81, // 400.0
        0x41, 0xAC, crc8(&[0x41, 0xAC]), 0x00, 0x00, 0x81, // 21.5
        0x42, 0x34, crc8(&[0x42, 0x34]), 0x00, 0x00, 0x81, // 45.0
    ];
    let (c, t, h) = measurement_bits(&frame);
    assert_eq!(c, 0x43C8_0000);
    assert_eq!(f32::from_bits(c), 400.0);
    assert_eq!(f32::from_bits(t), 21.5);
    assert_eq!(f32::from_bits(h), 45.0);
}

#[test]
fn pm_levels_and_colours() {
    assert_eq!(pm_level(0), "Good");
    assert_eq!(pm_level(12), "Good");
    assert_eq!(pm_level(13), "Fair");
    assert_eq!(pm_level(35), "Fair");
    assert_eq!(pm_level(36), "Poor");
    assert_eq!(pm_level(55), "Poor");
    assert_eq!(pm_level(56), "Bad");
    assert_eq!(level_color("Good"), "green");
    assert_eq!(level_color("Fair"), "orange");
    assert_eq!(level_color("Poor"), "red");
    assert_eq!(level_color("Bad"), "red");
    assert_eq!(level_color("good"), "darkred");
    assert_eq!(level_color(""), "darkred");
}

fn pms_frame(pm1: u16, pm25: u16, pm10: u16) -> Vec<u8> {
    let mut f = vec![0x42, 0x4D, 0x00, 0x1C];
    f.extend_from_slice(&[0, 1, 0, 2, 0, 3]);
    f.extend_from_slice(&pm1.to_be_bytes());
    f.extend_from_slice(&pm25.to_be_bytes());
    f.extend_from_slice(&pm10.to_be_bytes());
    while f.len() < 32 {
        f.push(0);
    }
    f
}

#[test]
fn pms_frame_found_after_noise() {
    let mut data = vec![0u8; 64];
    let frame = pms_frame(5, 7, 9);
    data[3] = 0x42;
    data[10..42].copy_from_slice(&frame);
    assert_eq!(parse_pms_frame(&data, 64), Some((5, 7, 9)));
    assert_eq!(fresh_pm_reading(&data, 64), Some((5, 7, 9)));
}

#[test]
fn pms_frame_must_be_complete() {
    let mut data = vec![0u8; 64];
    data[..32].copy_from_slice(&pms_frame(1, 2, 3));
    assert_eq!(parse_pms_frame(&data, 32), Some((1, 2, 3)));
    assert_eq!(parse_pms_frame(&data, 31), None);
    assert_eq!(parse_pms_frame(&data, 0), None);
}

#[test]
fn pms_first_frame_wins() {
    let mut data = vec![0u8; 64];
    data[..32].copy_from_slice(&pms_frame(1, 2, 3));
    data[32..64].copy_from_slice(&pms_frame(4, 5, 6));
    assert_eq!(parse_pms_frame(&data, 64), Some((1, 2, 3)));
}

#[test]
fn pms_zero_pm25_is_no_reading() {
    let mut data = vec![0u8; 64];
    data[..32].copy_from_slice(&pms_frame(1, 0, 3));
    assert_eq!(parse_pms_frame(&data, 64), Some((1, 0, 3)));
    assert_eq!(fresh_pm_reading(&data, 64), None);
}
