use onewire_uart::Rom;

#[test]
fn to_text_formats_23_characters() {
    let rom = Rom([0x28, 0x04, 0x00, 0x00, 0x00, 0x00, 0x00, 0xC2]);
    let text = rom.to_text();
    assert!(text.len() == 23);
    assert!(text == "28:04:00:00:00:00:00:C2");
}

#[test]
fn text_round_trip_restores_the_bytes() {
    let roms = [
        Rom([0x28, 0x04, 0x00, 0x00, 0x00, 0x00, 0x00, 0xC2]),
        Rom([0x00, 0x00, 0x00, 0x00, 0x00, 0x00, 0x00, 0x00]),
        Rom([0xFF, 0xFF, 0xFF, 0xFF, 0xFF, 0xFF, 0xFF, 0xFF]),
        Rom([0x10, 0xA3, 0x5E, 0x01, 0x99, 0x42, 0x7B, 0x08]),
    ];
    for rom in roms.iter() {
        let text = rom.to_text();
        let back = Rom::from_text(&text).expect("formatted text must parse");
        assert!(back.0 == rom.0);
    }
}

#[test]
fn text_shorter_than_23_characters_fails() {
    assert!(Rom::from_text("").is_none());
    assert!(Rom::from_text("28:04:00").is_none());
    // 22 characters: one short of the full form
    assert!(Rom::from_text("28:04:00:00:00:00:00:C").is_none());
}

#[test]
fn lower_case_digits_parse() {
    let rom = Rom::from_text("28:04:00:00:00:00:00:c2").unwrap();
    assert!(rom.0 == [0x28, 0x04, 0x00, 0x00, 0x00, 0x00, 0x00, 0xC2]);
}

#[test]
fn separator_characters_are_not_inspected() {
    let rom = Rom::from_text("28-04-00-00-00-00-00-C2").unwrap();
    assert!(rom.0 == [0x28, 0x04, 0x00, 0x00, 0x00, 0x00, 0x00, 0xC2]);
}

#[test]
fn non_hex_digit_fails() {
    assert!(Rom::from_text("2G:04:00:00:00:00:00:C2").is_none());
    assert!(Rom::from_text("28:04:00:00:00:00:00:G2").is_none());
}

#[test]
fn family_code_is_first_byte() {
    let rom = Rom([0x28, 0x04, 0x00, 0x00, 0x00, 0x00, 0x00, 0xC2]);
    assert!(rom.family_code() == 0x28);
}

#[test]
fn default_rom_is_all_zero() {
    let rom: Rom = Default::default();
    assert!(rom.0 == [0u8; 8]);
    assert!(rom.to_text() == "00:00:00:00:00:00:00:00");
}
