use onewire_uart::ds18x20::decode_celsius_centi;

#[test]
fn decode_positive_five_degrees() {
    // magnitude 5, fractional 0, positive: 5.0 degrees Celsius
    let centi = decode_celsius_centi(&[0x50, 0x00]);
    assert!(centi == 500);
    assert!((centi as f32) / 100.0 == 5.0);
}

#[test]
fn decode_negative_ten_degrees() {
    // second byte above the threshold: magnitude complement 127 - 117 = 10,
    // sign flipped: -10.0 degrees Celsius
    let centi = decode_celsius_centi(&[0x50, 0xFF]);
    assert!(centi == -1000);
    assert!((centi as f32) / 100.0 == -10.0);
}

#[test]
fn decode_fractional_part_in_hundredths() {
    // magnitude 9, low nibble 1: fractional contribution 6 hundredths
    assert!(decode_celsius_centi(&[0x91, 0x00]) == 906);
}

#[test]
fn decode_threshold_boundary() {
    // 0xFB is not above the threshold: still positive
    assert!(decode_celsius_centi(&[0x00, 0xFB]) == 4800);
    // 0xFC is above it: complement and negate
    assert!(decode_celsius_centi(&[0x00, 0xFC]) == -6300);
}

#[test]
fn decode_largest_fraction_stays_below_one() {
    // low nibble 15 gives 90 hundredths, never a full degree
    assert!(decode_celsius_centi(&[0x0F, 0x00]) == 90);
}
