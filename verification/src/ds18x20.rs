//! The temperature-sensor measurement protocol: start a conversion, read
//! the scratchpad, and decode the packed two-byte raw reading.

use vstd::prelude::*;
use crate::Cmd;
use crate::Error;
use crate::Rom;
use crate::UartTrait;
use crate::low_level;
use crate::crc;

verus! {

/// The sensor-family command bytes.
enum SensorCmd {
    ConvertTemp,
    ReadScratchpad,
}

impl SensorCmd {
    /// The byte sent on the bus for this command.
    fn code(&self) -> (r: u8)
        ensures
            r == match self {
                SensorCmd::ConvertTemp => 0x44 as u8,
                SensorCmd::ReadScratchpad => 0xBE as u8,
            },
    {
        match self {
            SensorCmd::ConvertTemp => 0x44,
            SensorCmd::ReadScratchpad => 0xBE,
        }
    }
}

/// Start a conversion on one device (`Some` address) or on all devices at
/// once (`None`).  The bus cannot signal completion; the caller must wait
/// the conversion time before reading.
pub fn start_measure<U: UartTrait>(uart: &mut U, rom: Option<&Rom>) -> (r: Result<(), Error>)
    ensures
        r matches Err(e) ==> (e == Error::Uart || e == Error::ResetError),
{
    if !low_level::ow_reset(uart).ok_or(Error::Uart)? {
        return Err(Error::ResetError);
    }

    match rom {
        None => low_level::ow_write_byte(uart, Cmd::SkipRom.code()).ok_or(Error::Uart)?,
        Some(rom) => match crate::match_rom(uart, rom) {
            Ok(()) => (),
            Err(Error::Uart) => {
                return Err(Error::Uart);
            },
            Err(_) => {
                return Err(Error::ResetError);
            },
        },
    }

    low_level::ow_write_byte(uart, SensorCmd::ConvertTemp.code()).ok_or(Error::Uart)?;

    Ok(())
}

/// Read the two temperature bytes of the scratchpad.  With `check_crc` the
/// whole nine-byte scratchpad is read and held to the integrity check, and
/// a failed check is reported as `CrcMismatch`; without it only the two
/// temperature bytes are read.
pub fn read_data<U: UartTrait>(uart: &mut U, rom: Option<&Rom>, check_crc: bool) -> (r: Result<
    [u8; 2],
    Error,
>)
    ensures
        r matches Err(e) ==> e != Error::UnexpectedResponse,
        !check_crc ==> !(r matches Err(e) && e == Error::CrcMismatch),
{
    if !low_level::ow_reset(uart).ok_or(Error::Uart)? {
        return Err(Error::ResetError);
    }

    match rom {
        None => low_level::ow_write_byte(uart, Cmd::SkipRom.code()).ok_or(Error::Uart)?,
        Some(rom) => match crate::match_rom(uart, rom) {
            Ok(()) => (),
            Err(Error::Uart) => {
                return Err(Error::Uart);
            },
            Err(_) => {
                return Err(Error::ResetError);
            },
        },
    }

    low_level::ow_write_byte(uart, SensorCmd::ReadScratchpad.code()).ok_or(Error::Uart)?;

    if check_crc {
        let mut buff: Vec<u8> = Vec::new();
        let mut i: usize = 0;
        while i < 9
            invariant
                i <= 9,
                buff@.len() == i,
            decreases 9 - i,
        {
            let b = low_level::ow_read_byte(uart).ok_or(Error::Uart)?;
            buff.push(b);
            i = i + 1;
        }

        if crc::verify(buff.as_slice()) {
            Ok([buff[0], buff[1]])
        } else {
            Err(Error::CrcMismatch)
        }
    } else {
        let lsb = low_level::ow_read_byte(uart).ok_or(Error::Uart)?;
        let msb = low_level::ow_read_byte(uart).ok_or(Error::Uart)?;
        Ok([lsb, msb])
    }
}

/// The decoded reading in hundredths of a degree Celsius.  The magnitude
/// combines the upper nibble of the first byte with the low three bits of
/// the second, the fractional part is the low nibble of the first byte
/// times six hundredths (at most 90, so the hundredths scale always
/// applies), and a second byte above the negative threshold complements
/// the magnitude against 127 and flips the sign.
pub open spec fn spec_decode_centi(lsb: u8, msb: u8) -> int {
    let digit = ((lsb >> 4) | ((msb & 0x07) << 4)) as int;
    let dec = (lsb & 0xF) as int * 6;
    if msb > 0xFB {
        -((127 - digit) * 100 + dec)
    } else {
        digit * 100 + dec
    }
}

/// Decode a raw two-byte reading into hundredths of a degree Celsius; the
/// Celsius value is the result divided by one hundred.
pub fn decode_celsius_centi(data: &[u8; 2]) -> (t: i16)
    ensures
        t == spec_decode_centi(data@[0], data@[1]),
{
    let lsb = data[0];
    let msb = data[1];
    proof {
        assert(((lsb >> 4) | ((msb & 0x07) << 4)) <= 127 && (lsb & 0xF) <= 15) by (bit_vector);
    }
    let mut digit: u8 = (lsb >> 4) | ((msb & 0x07) << 4);
    let decimal: u8 = (lsb & 0xF) * 6;

    if msb > 0xFB {
        digit = 127 - digit;
    }
    let mut centi: i16 = (digit as i16) * 100 + (decimal as i16);
    if msb > 0xFB {
        centi = -centi;
    }
    centi
}

} // verus!
