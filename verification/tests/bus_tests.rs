use std::cell::RefCell;
use std::collections::VecDeque;

use onewire_uart::Baudrate;
use onewire_uart::Error;
use onewire_uart::UartTrait;
use onewire_uart::low_level;
use onewire_uart::Cmd;
use onewire_uart::FamilyCode;

/// A channel that answers reads from a fixed script and records writes.
struct ScriptUart {
    inner: RefCell<ScriptInner>,
}

struct ScriptInner {
    reads: VecDeque<u8>,
    writes: Vec<u8>,
    fail_writes: bool,
}

impl ScriptUart {
    fn new(reads: &[u8]) -> ScriptUart {
        ScriptUart {
            inner: RefCell::new(ScriptInner {
                reads: reads.iter().copied().collect(),
                writes: Vec::new(),
                fail_writes: false,
            }),
        }
    }

    fn failing() -> ScriptUart {
        let uart = ScriptUart::new(&[]);
        uart.inner.borrow_mut().fail_writes = true;
        uart
    }

    fn writes(&self) -> Vec<u8> {
        self.inner.borrow().writes.clone()
    }
}

impl UartTrait for ScriptUart {
    fn set_baudrate(&mut self, _br: Baudrate) {}

    fn clear_rx(&mut self) {}

    fn clear_tx(&mut self) {}

    fn read_byte(&mut self) -> Option<u8> {
        self.inner.borrow_mut().reads.pop_front()
    }

    fn write_byte(&self, data: u8) -> bool {
        let mut inner = self.inner.borrow_mut();
        inner.writes.push(data);
        !inner.fail_writes
    }
}

/// The read-slot echoes a device produces for one byte, LSB first.
fn byte_echoes(byte: u8) -> Vec<u8> {
    (0..8).map(|i| if (byte >> i) & 1 != 0 { 0xFF } else { 0x00 }).collect()
}

#[test]
fn reset_echo_equal_to_pattern_means_no_device() {
    let mut uart = ScriptUart::new(&[0xF0]);
    assert!(onewire_uart::reset(&mut uart) == Ok(false));
}

#[test]
fn reset_any_other_echo_means_device_present() {
    let mut uart = ScriptUart::new(&[0xE0]);
    assert!(onewire_uart::reset(&mut uart) == Ok(true));
    let mut uart = ScriptUart::new(&[0x12]);
    assert!(onewire_uart::reset(&mut uart) == Ok(true));
}

#[test]
fn reset_without_echo_is_a_channel_failure() {
    let mut uart = ScriptUart::new(&[]);
    assert!(onewire_uart::reset(&mut uart) == Err(Error::Uart));
}

#[test]
fn write_bit_patterns() {
    let mut uart = ScriptUart::new(&[]);
    assert!(low_level::ow_write_bit(&mut uart, true) == Some(()));
    assert!(low_level::ow_write_bit(&mut uart, false) == Some(()));
    assert!(uart.writes() == vec![0xFF, 0x00]);
}

#[test]
fn write_bit_send_failure_propagates() {
    let mut uart = ScriptUart::failing();
    assert!(low_level::ow_write_bit(&mut uart, true).is_none());
}

#[test]
fn read_bit_threshold() {
    let mut uart = ScriptUart::new(&[0xFF, 0xFE, 0x00]);
    assert!(low_level::ow_read_bit(&mut uart) == Some(true));
    assert!(low_level::ow_read_bit(&mut uart) == Some(false));
    assert!(low_level::ow_read_bit(&mut uart) == Some(false));
    assert!(low_level::ow_read_bit(&mut uart).is_none());
}

#[test]
fn write_byte_is_eight_slots_lsb_first() {
    let mut uart = ScriptUart::new(&[]);
    assert!(low_level::ow_write_byte(&mut uart, 0xA5) == Some(()));
    assert!(uart.writes() == vec![0xFF, 0x00, 0xFF, 0x00, 0x00, 0xFF, 0x00, 0xFF]);
}

#[test]
fn read_byte_assembles_lsb_first() {
    let mut uart = ScriptUart::new(&byte_echoes(0x3C));
    assert!(low_level::ow_read_byte(&mut uart) == Some(0x3C));
}

#[test]
fn read_byte_aborts_on_first_missing_slot() {
    // three echoes only: the fourth bit read fails and no partial byte leaks
    let mut uart = ScriptUart::new(&[0xFF, 0xFF, 0xFF]);
    assert!(low_level::ow_read_byte(&mut uart).is_none());
}

#[test]
fn read_rom_returns_the_eight_bytes() {
    let rom_bytes: [u8; 8] = [0x28, 0x04, 0, 0, 0, 0, 0, 0xC2];
    let mut reads = vec![0xE0];  // presence
    for b in rom_bytes.iter() {
        reads.extend(byte_echoes(*b));
    }
    let mut uart = ScriptUart::new(&reads);
    let rom = onewire_uart::read_rom(&mut uart).unwrap();
    assert!(rom.0 == rom_bytes);
}

#[test]
fn read_rom_without_presence_is_a_reset_error() {
    let mut uart = ScriptUart::new(&[0xF0]);
    assert!(onewire_uart::read_rom(&mut uart) == Err(Error::ResetError));
}

#[test]
fn match_rom_sends_command_then_address() {
    let rom = onewire_uart::Rom([0x28, 0x04, 0, 0, 0, 0, 0, 0xC2]);
    let mut uart = ScriptUart::new(&[0xE0]);
    assert!(onewire_uart::match_rom(&mut uart, &rom) == Ok(()));
    let writes = uart.writes();
    // reset slot, 8 command slots, 64 address slots
    assert!(writes.len() == 1 + 8 + 64);
    assert!(writes[0] == 0xF0);
    // the match-address command 0x55, LSB first
    assert!(writes[1..9] == byte_echoes(0x55)[..]);
    // the first address byte 0x28, LSB first
    assert!(writes[9..17] == byte_echoes(0x28)[..]);
}

#[test]
fn skip_rom_sends_broadcast_command() {
    let mut uart = ScriptUart::new(&[0xE0]);
    assert!(onewire_uart::skip_rom(&mut uart) == Ok(()));
    let writes = uart.writes();
    assert!(writes.len() == 1 + 8);
    assert!(writes[1..9] == byte_echoes(0xCC)[..]);
}

#[test]
fn start_measure_broadcast_sends_skip_then_convert() {
    let mut uart = ScriptUart::new(&[0xE0]);
    assert!(onewire_uart::ds18x20::start_measure(&mut uart, None) == Ok(()));
    let writes = uart.writes();
    assert!(writes.len() == 1 + 8 + 8);
    assert!(writes[1..9] == byte_echoes(0xCC)[..]);
    assert!(writes[9..17] == byte_echoes(0x44)[..]);
}

#[test]
fn start_measure_without_presence_is_a_reset_error() {
    let mut uart = ScriptUart::new(&[0xF0]);
    assert!(onewire_uart::ds18x20::start_measure(&mut uart, None) == Err(Error::ResetError));
}

#[test]
fn read_data_fast_path_returns_two_bytes() {
    let mut reads = vec![0xE0];
    reads.extend(byte_echoes(0x50));
    reads.extend(byte_echoes(0x00));
    let mut uart = ScriptUart::new(&reads);
    let data = onewire_uart::ds18x20::read_data(&mut uart, None, false).unwrap();
    assert!(data == [0x50, 0x00]);
}

#[test]
fn read_data_checked_path_accepts_a_sound_scratchpad() {
    let payload: [u8; 8] = [0x50, 0x00, 0x4B, 0x46, 0xFF, 0xFF, 0x02, 0x10];
    let crc = onewire_uart::crc::compute(&payload);
    let mut reads = vec![0xE0];
    for b in payload.iter() {
        reads.extend(byte_echoes(*b));
    }
    reads.extend(byte_echoes(crc));
    let mut uart = ScriptUart::new(&reads);
    let data = onewire_uart::ds18x20::read_data(&mut uart, None, true).unwrap();
    assert!(data == [0x50, 0x00]);
}

#[test]
fn read_data_checked_path_rejects_a_damaged_scratchpad() {
    let payload: [u8; 8] = [0x50, 0x00, 0x4B, 0x46, 0xFF, 0xFF, 0x02, 0x10];
    let crc = onewire_uart::crc::compute(&payload);
    let mut reads = vec![0xE0];
    reads.extend(byte_echoes(payload[0] ^ 0x01));  // one damaged bit
    for b in payload[1..].iter() {
        reads.extend(byte_echoes(*b));
    }
    reads.extend(byte_echoes(crc));
    let mut uart = ScriptUart::new(&reads);
    let r = onewire_uart::ds18x20::read_data(&mut uart, None, true);
    assert!(r == Err(Error::CrcMismatch));
}

#[test]
fn read_data_channel_failure_propagates() {
    let mut uart = ScriptUart::new(&[0xE0]);  // presence, then nothing
    let r = onewire_uart::ds18x20::read_data(&mut uart, None, false);
    assert!(r == Err(Error::Uart));
}

#[test]
fn command_codes() {
    assert!(Cmd::SearchNormal.code() == 0xF0);
    assert!(Cmd::SearchAlarm.code() == 0xEC);
    assert!(Cmd::ReadRom.code() == 0x33);
    assert!(Cmd::MatchRom.code() == 0x55);
    assert!(Cmd::SkipRom.code() == 0xCC);
}

#[test]
fn family_codes() {
    assert!(FamilyCode::DS18B20.code() == 0x28);
    assert!(FamilyCode::DS18S20.code() == 0x10);
    assert!(FamilyCode::DS1990.code() == 0x01);
}

#[test]
fn diff_walk_channel_failure_is_none() {
    // no echo at all: the reset read fails and the walk reports it
    let mut uart = ScriptUart::new(&[]);
    let mut rom = onewire_uart::Rom([0; 8]);
    let r = low_level::ow_search_rom(&mut uart, low_level::OW_SEARCH_FIRST, &mut rom);
    assert!(r.is_none());
}
