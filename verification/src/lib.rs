//! A 1-Wire bus master built on a byte-oriented serial channel.
//!
//! The serial channel synthesizes 1-Wire pulse timing by switching between a
//! slow rate (reset pulses) and a fast rate (single-bit slots).  On top of
//! that sit the bit/byte transport (`low_level`), the Maxim 8-bit integrity
//! check (`crc`), the collision-resolving device search (`search`), and the
//! temperature-sensor command sequences (`ds18x20`).

use vstd::prelude::*;

pub mod crc;
pub mod ds18x20;
pub mod low_level;
pub mod search;
pub mod text;

verus! {

/// The two transfer rates the transport switches between: the slow rate for
/// reset pulses and the fast rate for single-bit slots.
pub enum Baudrate {
    Br9600,
    Br115200,
}

/// The serial-channel capability the bus master consumes.  Implementations
/// are supplied by the caller; the core states nothing about the bytes a
/// channel produces and is verified for every possible response.
pub trait UartTrait {
    fn set_baudrate(&mut self, br: Baudrate);

    fn clear_rx(&mut self);

    fn clear_tx(&mut self);

    fn clear_all(&mut self) {
        self.clear_tx();
        self.clear_rx();
    }

    /// Polling receive: a byte, or nothing available.
    fn read_byte(&mut self) -> Option<u8>;

    /// Blocking send; reports whether the byte was transmitted.
    fn write_byte(&self, data: u8) -> bool;
}

/// The closed set of failure kinds; no payload beyond the kind.
#[derive(Debug, Clone, Copy, PartialEq, Eq, Structural)]
pub enum Error {
    /// A channel send or receive did not complete.
    Uart,
    /// A reset was issued but no device asserted presence.
    ResetError,
    /// The integrity check failed on an address or scratchpad.
    CrcMismatch,
    /// A protocol invariant was violated on the bus.
    UnexpectedResponse,
}

/// An 8-byte device address: family code, six serial bytes, and a trailing
/// checksum byte that must equal the integrity check of the first seven.
#[derive(Debug, Clone, Copy)]
pub struct Rom(pub [u8; 8]);

impl PartialEq for Rom {
    fn eq(&self, other: &Rom) -> (r: bool) {
        let mut i: usize = 0;
        while i < 8
            invariant
                i <= 8,
                forall|j: int| 0 <= j < i ==> self.0@[j] == other.0@[j],
            decreases 8 - i,
        {
            if self.0[i] != other.0[i] {
                return false;
            }
            i = i + 1;
        }
        proof {
            assert(self.0@ =~= other.0@);
        }
        true
    }
}

impl vstd::std_specs::cmp::PartialEqSpecImpl for Rom {
    open spec fn obeys_eq_spec() -> bool {
        true
    }

    open spec fn eq_spec(&self, other: &Rom) -> bool {
        self.0@ == other.0@
    }
}

impl Default for Rom {
    /// The all-zero address.
    fn default() -> (r: Rom)
        ensures
            forall|j: int| 0 <= j < 8 ==> r.0@[j] == 0u8,
    {
        Rom([0; 8])
    }
}

impl Rom {
    /// The family-code byte of the address.
    pub fn family_code(&self) -> (r: u8)
        ensures
            r == self.0@[0],
    {
        self.0[0]
    }
}

/// The bus-level command bytes.
pub enum Cmd {
    SearchNormal,
    SearchAlarm,
    ReadRom,
    MatchRom,
    SkipRom,
}

impl Cmd {
    /// The byte sent on the bus for this command.
    pub fn code(&self) -> (r: u8)
        ensures
            r == self.spec_code(),
    {
        match self {
            Cmd::SearchNormal => 0xF0,
            Cmd::SearchAlarm => 0xEC,
            Cmd::ReadRom => 0x33,
            Cmd::MatchRom => 0x55,
            Cmd::SkipRom => 0xCC,
        }
    }

    pub open spec fn spec_code(&self) -> u8 {
        match self {
            Cmd::SearchNormal => 0xF0,
            Cmd::SearchAlarm => 0xEC,
            Cmd::ReadRom => 0x33,
            Cmd::MatchRom => 0x55,
            Cmd::SkipRom => 0xCC,
        }
    }
}

/// The known device families, named by their family-code byte.
pub enum FamilyCode {
    DS1990,
    DS2405,
    DS2413,
    DS1822,
    DS2430,
    DS2431,
    DS18S20,
    DS18B20,
    DS2433,
}

impl FamilyCode {
    /// The family-code byte of this family.
    pub fn code(&self) -> (r: u8)
        ensures
            r == match self {
                FamilyCode::DS1990 => 0x01 as u8,
                FamilyCode::DS2405 => 0x05 as u8,
                FamilyCode::DS2413 => 0x3A as u8,
                FamilyCode::DS1822 => 0x22 as u8,
                FamilyCode::DS2430 => 0x14 as u8,
                FamilyCode::DS2431 => 0x2D as u8,
                FamilyCode::DS18S20 => 0x10 as u8,
                FamilyCode::DS18B20 => 0x28 as u8,
                FamilyCode::DS2433 => 0x23 as u8,
            },
    {
        match self {
            FamilyCode::DS1990 => 0x01,
            FamilyCode::DS2405 => 0x05,
            FamilyCode::DS2413 => 0x3A,
            FamilyCode::DS1822 => 0x22,
            FamilyCode::DS2430 => 0x14,
            FamilyCode::DS2431 => 0x2D,
            FamilyCode::DS18S20 => 0x10,
            FamilyCode::DS18B20 => 0x28,
            FamilyCode::DS2433 => 0x23,
        }
    }
}

/// Issue a reset pulse: `Ok(true)` if a device asserted presence, `Ok(false)`
/// if none did, `Err(Error::Uart)` if the channel produced no echo.
pub fn reset<U: UartTrait>(uart: &mut U) -> (r: Result<bool, Error>)
    ensures
        r matches Err(e) ==> e == Error::Uart,
{
    low_level::ow_reset(uart).ok_or(Error::Uart)
}

/// Read the address of the single device on the bus: reset, send the
/// read-address command, read 8 bytes.  Meaningful only when exactly one
/// device is present.
pub fn read_rom<U: UartTrait>(uart: &mut U) -> (r: Result<Rom, Error>)
    ensures
        r matches Err(e) ==> (e == Error::Uart || e == Error::ResetError),
{
    if reset(uart)? != true {
        return Err(Error::ResetError);
    }

    low_level::ow_write_byte(uart, Cmd::ReadRom.code()).ok_or(Error::Uart)?;

    let mut rom = Rom([0; 8]);

    let mut i: usize = 0;
    while i < 8
        invariant
            i <= 8,
        decreases 8 - i,
    {
        rom.0[i] = low_level::ow_read_byte(uart).ok_or(Error::Uart)?;
        i = i + 1;
    }

    Ok(rom)
}

/// Address one specific device: reset, send the match-address command, then
/// the 8 address bytes.  Subsequent operations in the same transaction are
/// restricted to the targeted device.
pub fn match_rom<U: UartTrait>(uart: &mut U, rom: &Rom) -> (r: Result<(), Error>)
    ensures
        r matches Err(e) ==> (e == Error::Uart || e == Error::ResetError),
{
    if reset(uart)? != true {
        return Err(Error::ResetError);
    }

    low_level::ow_write_byte(uart, Cmd::MatchRom.code()).ok_or(Error::Uart)?;

    let mut i: usize = 0;
    while i < 8
        invariant
            i <= 8,
        decreases 8 - i,
    {
        low_level::ow_write_byte(uart, rom.0[i]).ok_or(Error::Uart)?;
        i = i + 1;
    }

    Ok(())
}

/// Address all devices at once: reset, then the broadcast ("skip") command.
pub fn skip_rom<U: UartTrait>(uart: &mut U) -> (r: Result<(), Error>)
    ensures
        r matches Err(e) ==> (e == Error::Uart || e == Error::ResetError),
{
    if reset(uart)? != true {
        return Err(Error::ResetError);
    }

    low_level::ow_write_byte(uart, Cmd::SkipRom.code()).ok_or(Error::Uart)
}

} // verus!
