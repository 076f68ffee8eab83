//! The TCS34725 light sensor's register protocol, without the bus.
//!
//! The driver says which bytes go over the bus for each operation and reads
//! the answers; moving the bytes is left to whoever owns the bus.

use vstd::prelude::*;

verus! {

/// The sensor's address on the bus.
pub const ADDRESS: u8 = 0x29;

/// Set in the first byte of every exchange, beside the register's number.
pub const COMMAND_BIT: u8 = 0x80;

/// The enable register: power and converter.
pub const REG_ENABLE: u8 = 0x00;

/// The integration time register.
pub const REG_ATIME: u8 = 0x01;

/// The gain control register.
pub const REG_CONTROL: u8 = 0x0F;

/// The identity register.
pub const REG_ID: u8 = 0x12;

/// The low byte of the clear channel; the other channels follow it.
pub const REG_CDATAL: u8 = 0x14;

/// Power on.
pub const MASK_ENABLE_PON: u8 = 0x01;

/// Enable the colour converter.
pub const MASK_ENABLE_AEN: u8 = 0x02;

/// The number of bytes that hold the four channels.
pub const RGBC_LEN: usize = 8;

/// Raw counts of the red, green, blue and clear channels.
#[derive(Debug, Clone, Copy, PartialEq, Eq, Structural)]
pub struct Rgbc {
    pub r: u16,
    pub g: u16,
    pub b: u16,
    pub c: u16,
}

impl Default for Rgbc {
    fn default() -> (sample: Rgbc)
        ensures
            sample == (Rgbc { r: 0, g: 0, b: 0, c: 0 }),
    {
        Rgbc { r: 0, g: 0, b: 0, c: 0 }
    }
}

/// A write to the sensor: `bytes` go to the device at `address`.
#[derive(Debug, Clone, Copy, PartialEq, Eq)]
pub struct BusWrite {
    pub address: u8,
    pub bytes: [u8; 2],
}

/// A read from the sensor: `command` goes to the device at `address`, and
/// `len` bytes are read back after it.
#[derive(Debug, Clone, Copy, PartialEq, Eq, Structural)]
pub struct BusRead {
    pub address: u8,
    pub command: u8,
    pub len: usize,
}

/// The first byte of an exchange that is about register `reg`.
pub open spec fn command(reg: u8) -> u8 {
    COMMAND_BIT | reg
}

/// The 16-bit count whose low byte is `lo` and whose high byte is `hi`.
pub open spec fn word(lo: u8, hi: u8) -> int {
    lo + 256 * hi
}

/// The four channels that the eight bytes from [`REG_CDATAL`] on hold:
/// clear, red, green and blue, each low byte first.
pub open spec fn channels(bytes: Seq<u8>) -> Rgbc {
    Rgbc {
        c: word(bytes[0], bytes[1]) as u16,
        r: word(bytes[2], bytes[3]) as u16,
        g: word(bytes[4], bytes[5]) as u16,
        b: word(bytes[6], bytes[7]) as u16,
    }
}

impl BusWrite {
    /// The write sets register `reg` to `value`.
    pub open spec fn sets(self, reg: u8, value: u8) -> bool {
        self.address == ADDRESS && self.bytes@ == seq![command(reg), value]
    }
}

impl BusRead {
    /// The read fetches `len` bytes from register `reg` on.
    pub open spec fn fetches(self, reg: u8, len: int) -> bool {
        self.address == ADDRESS && self.command == command(reg) && self.len == len
    }
}

/// The sensor's driver.
#[derive(Debug, Clone, Copy)]
pub struct Tcs34725 {}

impl Tcs34725 {
    /// A driver for the sensor at [`ADDRESS`].
    pub fn new() -> (sensor: Tcs34725) {
        Tcs34725 {}
    }

    /// The write that powers the sensor on and enables its converter: both
    /// enable bits go to the enable register.
    pub fn init(&self) -> (write: BusWrite)
        ensures
            write.sets(REG_ENABLE, MASK_ENABLE_PON | MASK_ENABLE_AEN),
            write.address == 0x29 && write.bytes@ == seq![0x80u8, 0x03u8],
    {
        assert(MASK_ENABLE_PON | MASK_ENABLE_AEN == 0x03u8) by (bit_vector);
        assert(COMMAND_BIT | REG_ENABLE == 0x80u8) by (bit_vector);
        let cmd = COMMAND_BIT | REG_ENABLE;
        BusWrite { address: ADDRESS, bytes: [cmd, MASK_ENABLE_PON | MASK_ENABLE_AEN] }
    }

    /// The read of the sensor's identity register.
    pub fn read_id(&self) -> (read: BusRead)
        ensures
            read.fetches(REG_ID, 1),
            read == (BusRead { address: 0x29, command: 0x92, len: 1 }),
    {
        assert(COMMAND_BIT | REG_ID == 0x92u8) by (bit_vector);
        self.read_reg(REG_ID)
    }

    /// The write that enables the sensor; the same as that of
    /// [`Tcs34725::init`].
    pub fn enable(&self) -> (write: BusWrite)
        ensures
            write.sets(REG_ENABLE, MASK_ENABLE_PON | MASK_ENABLE_AEN),
            write.address == 0x29 && write.bytes@ == seq![0x80u8, 0x03u8],
    {
        assert(MASK_ENABLE_PON | MASK_ENABLE_AEN == 0x03u8) by (bit_vector);
        assert(COMMAND_BIT | REG_ENABLE == 0x80u8) by (bit_vector);
        self.write_reg(REG_ENABLE, MASK_ENABLE_PON | MASK_ENABLE_AEN)
    }

    /// The read of all four channels at once.
    pub fn read_all(&self) -> (read: BusRead)
        ensures
            read.fetches(REG_CDATAL, RGBC_LEN as int),
            read == (BusRead { address: 0x29, command: 0x94, len: 8 }),
    {
        assert(COMMAND_BIT | REG_CDATAL == 0x94u8) by (bit_vector);
        BusRead { address: ADDRESS, command: COMMAND_BIT | REG_CDATAL, len: RGBC_LEN }
    }

    /// The write that sets register `reg` to `value`.
    pub fn write_reg(&self, reg: u8, value: u8) -> (write: BusWrite)
        ensures
            write.sets(reg, value),
    {
        let cmd = COMMAND_BIT | reg;
        BusWrite { address: ADDRESS, bytes: [cmd, value] }
    }

    /// The read of the one byte of register `reg`.
    pub fn read_reg(&self, reg: u8) -> (read: BusRead)
        ensures
            read.fetches(reg, 1),
    {
        let cmd = COMMAND_BIT | reg;
        BusRead { address: ADDRESS, command: cmd, len: 1 }
    }

    /// The identity that the answer to [`Tcs34725::read_id`] holds.
    pub fn decode_id(&self, answer: &[u8; 1]) -> (id: u8)
        ensures
            id == answer@[0],
    {
        answer[0]
    }

    /// The sample that the answer to [`Tcs34725::read_all`] holds.
    pub fn decode_all(&self, answer: &[u8; 8]) -> (sample: Rgbc)
        ensures
            sample == channels(answer@),
    {
        let c = le_word(answer[0], answer[1]);
        let r = le_word(answer[2], answer[3]);
        let g = le_word(answer[4], answer[5]);
        let b = le_word(answer[6], answer[7]);
        Rgbc { r, g, b, c }
    }
}

/// Puts a 16-bit count together from its two bytes.
fn le_word(lo: u8, hi: u8) -> (w: u16)
    ensures
        w == word(lo, hi),
{
    (hi as u16) * 256 + (lo as u16)
}

} // verus!
