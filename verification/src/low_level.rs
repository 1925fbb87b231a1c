//! The bit/byte transport: reset-pulse detection, single-bit write and read,
//! and byte operations composed from exactly eight single-bit operations,
//! least-significant bit first.
//!
//! Every operation starts by selecting the rate and flushing both channel
//! directions.  What a channel answers is never constrained here: the pure
//! decision rules (`presence_from_echo`, `bit_from_echo`, `bit_slot_pattern`)
//! carry exact contracts, and the transport is verified for every byte the
//! channel can produce.

use vstd::prelude::*;
use crate::Baudrate;
use crate::UartTrait;

verus! {

/// The byte pattern sent at the slow rate to synthesize a reset pulse.
pub const RESET_PATTERN: u8 = 0xF0;

/// A presence pulse shows as a deviation between the sent reset pattern and
/// the echoed byte: a responding device pulls the line low mid-transaction.
pub fn presence_from_echo(echo: u8) -> (present: bool)
    ensures
        present == (echo != RESET_PATTERN),
{
    echo != RESET_PATTERN
}

/// The byte pattern that encodes one bit in a fast-rate slot: a full-high
/// byte floats the line (a 1 bit), a zero byte holds it low (a 0 bit).
pub fn bit_slot_pattern(bit: bool) -> (pattern: u8)
    ensures
        pattern == if bit { 0xFF as u8 } else { 0 as u8 },
{
    if bit {
        0xFF
    } else {
        0
    }
}

/// A read slot floats the line; only an echo above this near-maximum
/// threshold means no device pulled it low, i.e. a sensed 1 bit.
pub fn bit_from_echo(echo: u8) -> (bit: bool)
    ensures
        bit == (echo > 0xFE),
{
    echo > 0xFE
}

/// Issue a reset pulse.  `Some(true)` means a device asserted presence (the
/// echo deviated from the sent pattern), `Some(false)` means the echo came
/// back exactly as sent, `None` means no byte was received.
pub fn ow_reset<U: UartTrait>(uart: &mut U) -> Option<bool> {
    uart.set_baudrate(Baudrate::Br9600);
    uart.clear_all();

    uart.write_byte(RESET_PATTERN);
    match uart.read_byte() {
        None => None,
        Some(r) => Some(presence_from_echo(r)),
    }
}

/// Write a single bit; `None` on a channel send failure.
pub fn ow_write_bit<U: UartTrait>(uart: &mut U, bit: bool) -> Option<()> {
    uart.set_baudrate(Baudrate::Br115200);
    uart.clear_all();

    let r = uart.write_byte(bit_slot_pattern(bit));

    if r {
        Some(())
    } else {
        None
    }
}

/// Read a single bit by floating the line for one slot; `None` on a channel
/// send or receive failure.
pub fn ow_read_bit<U: UartTrait>(uart: &mut U) -> Option<bool> {
    uart.set_baudrate(Baudrate::Br115200);
    uart.clear_all();

    if uart.write_byte(0xFF) == false {
        return None;
    }
    match uart.read_byte() {
        None => None,
        Some(x) => Some(bit_from_echo(x)),
    }
}

/// Write one byte as exactly eight bit writes, least-significant bit first;
/// the first bit failure aborts the byte and propagates.
pub fn ow_write_byte<U: UartTrait>(uart: &mut U, byte: u8) -> Option<()> {
    let mut i: u8 = 0;
    while i < 8
        invariant
            i <= 8,
        decreases 8 - i,
    {
        ow_write_bit(uart, (byte >> i) & 1u8 != 0)?;
        i = i + 1;
    }
    Some(())
}

/// Read one byte as exactly eight bit reads, least-significant bit first;
/// the first bit failure aborts the byte and propagates, so no partial byte
/// is ever returned.
pub fn ow_read_byte<U: UartTrait>(uart: &mut U) -> Option<u8> {
    let mut v: u8 = 0;
    let mut i: u8 = 0;

    while i < 8
        invariant
            i <= 8,
        decreases 8 - i,
    {
        if ow_read_bit(uart)? {
            v = v | (1u8 << i);
        }
        i = i + 1;
    }

    Some(v)
}

/// Diff value that starts a fresh enumeration pass.
pub const OW_SEARCH_FIRST: u8 = 0xFF;

/// Diff result: no device asserted presence.
pub const OW_PRESENCE_ERR: u8 = 0xFF;

/// Diff result: contradictory response bits (data error).
pub const OW_DATA_ERR: u8 = 0xFE;

/// Diff result: the device just found was the last one.
pub const OW_LAST_DEVICE: u8 = 0x00;

/// One pass of the classic diff-driven tree walk: walks all 64 address bits,
/// replaying choices below the supplied `diff` position, and fills `rom`
/// with the address of one device.  Returns `None` on a channel failure;
/// otherwise the result is `OW_PRESENCE_ERR` (empty bus), `OW_DATA_ERR`
/// (contradictory response bits), or the bit position (1 to 64) to resume
/// from — `OW_LAST_DEVICE` (0) when no unresolved branch remains.
/// Bit `i` of one rom byte.
pub open spec fn rom_byte_bit(b: u8, i: int) -> bool {
    (b >> (i as u8)) & 1 == 1
}

#[verifier::loop_isolation(false)]
pub fn ow_search_rom<U: UartTrait>(uart: &mut U, diff: u8, rom: &mut crate::Rom) -> (r: Option<
    u8,
>)
    ensures
        r matches Some(d) ==> d == OW_PRESENCE_ERR || d == OW_DATA_ERR || d <= 64,
        r == Some(OW_PRESENCE_ERR) ==> *final(rom) == *old(rom),
        r matches Some(d) ==> (1 <= d <= 64 ==> rom_byte_bit(
            final(rom).0@[(64 - d) / 8],
            (64 - d) % 8,
        )),
{
    if ow_reset(uart)? == false {
        return Some(OW_PRESENCE_ERR);
    }

    ow_write_byte(uart, crate::Cmd::SearchNormal.code())?;
    let mut next_diff: u8 = OW_LAST_DEVICE;

    let mut i: u8 = 64;
    let mut byte_idx: usize = 0;
    while byte_idx < 8
        invariant
            byte_idx <= 8,
            i == 64 - 8 * byte_idx,
            next_diff <= 64,
            next_diff != 0 ==> 64 - next_diff < 8 * byte_idx && rom_byte_bit(
                rom.0@[(64 - next_diff) / 8],
                (64 - next_diff) % 8,
            ),
        decreases 8 - byte_idx,
    {
        let mut id: u8 = rom.0[byte_idx];
        let mut bit_cnt: u8 = 0;
        while bit_cnt < 8
            invariant
                bit_cnt <= 8,
                byte_idx < 8,
                i == 64 - 8 * byte_idx - bit_cnt,
                next_diff <= 64,
                next_diff != 0 ==> 64 - next_diff < 8 * byte_idx + bit_cnt,
                (next_diff != 0 && 64 - next_diff < 8 * byte_idx) ==> rom_byte_bit(
                    rom.0@[(64 - next_diff) / 8],
                    (64 - next_diff) % 8,
                ),
                (next_diff != 0 && 64 - next_diff >= 8 * byte_idx) ==> rom_byte_bit(
                    id,
                    (64 - next_diff) - 8 * byte_idx + 8 - bit_cnt,
                ),
            decreases 8 - bit_cnt,
        {
            let ghost nd0 = next_diff;
            let mut b = ow_read_bit(uart)?;
            if ow_read_bit(uart)? {
                // complement bit also set
                if b {
                    // both signals high: no device is driving this position
                    return Some(OW_DATA_ERR);
                }
            } else {
                if b == false {
                    // both signals low: devices disagree on this position
                    if diff > i || ((id & 1) != 0 && diff != i) {
                        b = true;  // take the 1 branch now
                        next_diff = i;  // resume the 0 branch next pass
                    }
                }
            }
            ow_write_bit(uart, b)?;
            let ghost id0 = id;
            id = id >> 1;
            if b {
                id = id | 0x80;
            }
            proof {
                if next_diff != 0 {
                    if next_diff != nd0 {
                        // recorded this slot: the forced 1 branch now sits at
                        // the top of the shift register
                        assert(rom_byte_bit((id0 >> 1) | 0x80, 7)) by (bit_vector);
                    } else if 64 - next_diff >= 8 * byte_idx {
                        // the tracked bit moved down one place with the shift
                        let q = (64 - next_diff) - 8 * byte_idx + 8 - bit_cnt;
                        let qq: u8 = q as u8;
                        let qm: u8 = (q - 1) as u8;
                        assert((((id0 >> 1) | 0x80) >> qm) & 1 == (id0 >> qq) & 1 && ((id0 >> 1)
                            >> qm) & 1 == (id0 >> qq) & 1) by (bit_vector)
                            requires
                                1 <= qq <= 7,
                                qm == qq - 1,
                        ;
                    }
                }
            }
            i = i - 1;
            bit_cnt = bit_cnt + 1;
        }
        rom.0[byte_idx] = id;
        proof {
            if next_diff != 0 {
                let p = 64 - next_diff;
                if p >= 8 * byte_idx {
                    assert(p / 8 == byte_idx && p % 8 == p - 8 * byte_idx) by (nonlinear_arith)
                        requires
                            8 * byte_idx <= p < 8 * byte_idx + 8,
                    ;
                } else {
                    assert(p / 8 < byte_idx) by (nonlinear_arith)
                        requires
                            0 <= p < 8 * byte_idx,
                    ;
                }
            }
        }
        byte_idx = byte_idx + 1;
    }

    Some(next_diff)
}

/// Repeat `ow_search_rom` passes until the diff value is terminal: empty
/// bus, data error, or last device.  `None` on a channel failure.
pub fn ow_find_rom<U: UartTrait>(uart: &mut U, diff: &mut u8, rom: &mut crate::Rom) -> (r: Option<
    (),
>)
    ensures
        r matches Some(_) ==> (*final(diff) == OW_PRESENCE_ERR || *final(diff) == OW_DATA_ERR
            || *final(diff) == OW_LAST_DEVICE),
{
    // Each pass finds one device, and 64-bit addresses admit fewer than
    // 2^64 distinct devices, so this countdown never ends a real
    // enumeration; it only bounds the walk against a faulty bus.
    let mut passes: u64 = 0xFFFF_FFFF_FFFF_FFFF;
    while passes > 0
        invariant
            true,
        decreases passes,
    {
        let d = ow_search_rom(uart, *diff, rom)?;
        *diff = d;
        if d == OW_PRESENCE_ERR || d == OW_DATA_ERR || d == OW_LAST_DEVICE {
            return Some(());
        }
        passes = passes - 1;
    }
    None
}

} // verus!
