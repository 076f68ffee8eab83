//! The SSD1283A display controller's register protocol, without the bus.
//!
//! The driver says which registers are written with what, and how pixels go
//! over the wire; moving the bytes and keeping the pauses is left to whoever
//! owns the bus.

use vstd::prelude::*;

verus! {

/// The width of the panel in pixels.
pub const WIDTH: u16 = 130;

/// The height of the panel in pixels.
pub const HEIGHT: u16 = 130;

/// The panel's first pixel sits at this offset in the controller's memory,
/// in both directions.
pub const OFFSET: u16 = 2;

/// The greatest coordinate that a window can name: with [`OFFSET`] added it
/// must fit the one byte it has in a register.
pub const MAX_COORDINATE: u16 = 253;

/// Horizontal bounds of the window: the end in the high byte, the start in
/// the low byte.
pub const REG_HORIZONTAL: u8 = 0x44;

/// Vertical bounds of the window: the end in the high byte, the start in the
/// low byte.
pub const REG_VERTICAL: u8 = 0x45;

/// Where writing starts: the row in the high byte, the column in the low byte.
pub const REG_CURSOR: u8 = 0x21;

/// The command after which pixel data follows.
pub const CMD_WRITE_PIXELS: u8 = 0x22;

/// The greatest number of pixels that go over the bus in one piece.
pub const CHUNK_PIXELS: u32 = 256;

/// The reset pulse: each level of the reset line and how many milliseconds
/// it is held.
pub const RESET_PULSE: [(bool, u32); 3] = [(true, 5), (false, 2), (true, 200)];

/// The registers written after reset, in order: the register, its value,
/// and the pause after the write in milliseconds.
pub const INIT_SEQUENCE: [(u8, u16, u32); 21] = [
    (0x10, 0x2F8E, 0),
    (0x11, 0x000C, 0),
    (0x07, 0x0021, 0),
    (0x28, 0x0006, 0),
    (0x28, 0x0005, 0),
    (0x27, 0x057F, 0),
    (0x29, 0x89A1, 0),
    (0x00, 0x0001, 100),
    (0x29, 0x80B0, 30),
    (0x29, 0xFFFE, 0),
    (0x07, 0x0223, 30),
    (0x07, 0x0233, 0),
    (0x01, 0x2183, 0),
    (0x03, 0x6030, 0),
    (0x2F, 0xFFFF, 0),
    (0x2C, 0x8000, 0),
    (0x27, 0x0570, 0),
    (0x02, 0x0300, 0),
    (0x0B, 0x580C, 0),
    (0x12, 0x0609, 0),
    (0x13, 0x3100, 50),
];

/// A rectangle of pixels to fill: the registers that open its window, and
/// the number of its pixels.
#[derive(Debug, Clone, Copy, PartialEq, Eq)]
pub struct Fill {
    pub window: [(u8, u16); 3],
    pub pixels: u32,
}

/// The value of a register that holds `high` in its high byte and `low` in
/// its low byte, each moved by [`OFFSET`].
pub open spec fn packed(high: u16, low: u16) -> int {
    (high + OFFSET) * 256 + (low + OFFSET)
}

/// The register writes that open the window from `(x1, y1)` to `(x2, y2)`,
/// both corners included, and set the cursor to its first pixel.
pub open spec fn window_of(x1: u16, y1: u16, x2: u16, y2: u16) -> Seq<(u8, u16)> {
    seq![
        (REG_HORIZONTAL, packed(x2, x1) as u16),
        (REG_VERTICAL, packed(y2, y1) as u16),
        (REG_CURSOR, packed(y1, x1) as u16),
    ]
}

/// The display's driver.
#[derive(Debug, Clone, Copy)]
pub struct Ssd1283a {}

impl Ssd1283a {
    /// A driver for a panel of [`WIDTH`] by [`HEIGHT`] pixels.
    pub fn new() -> (display: Ssd1283a) {
        Ssd1283a {}
    }

    /// The size of the panel: its width and its height in pixels.
    pub fn size(&self) -> (size: (u32, u32))
        ensures
            size == (WIDTH as u32, HEIGHT as u32),
    {
        (WIDTH as u32, HEIGHT as u32)
    }

    /// The reset pulse.
    pub fn reset(&self) -> (pulse: [(bool, u32); 3])
        ensures
            pulse == RESET_PULSE,
    {
        RESET_PULSE
    }

    /// The register writes that bring the controller up after a reset.
    pub fn init(&self) -> (sequence: [(u8, u16, u32); 21])
        ensures
            sequence == INIT_SEQUENCE,
    {
        INIT_SEQUENCE
    }

    /// The bytes of a register write: the command, then the two bytes of
    /// its data, the high byte first.
    pub fn write_reg(&self, cmd: u8, data: u16) -> (bytes: [u8; 3])
        ensures
            bytes@ == seq![cmd, (data / 256) as u8, (data % 256) as u8],
    {
        [cmd, (data / 256) as u8, (data % 256) as u8]
    }

    /// The two bytes of a pixel on the wire: the low byte first.
    pub fn pixel_bytes(&self, raw: u16) -> (bytes: [u8; 2])
        ensures
            bytes@ == seq![(raw % 256) as u8, (raw / 256) as u8],
    {
        [(raw % 256) as u8, (raw / 256) as u8]
    }

    /// The register writes that open the window from `(x1, y1)` to
    /// `(x2, y2)`; the command [`CMD_WRITE_PIXELS`] and the pixels follow
    /// them.
    pub fn set_window_and_write_start(&self, x1: u16, y1: u16, x2: u16, y2: u16) -> (window: [(
        u8,
        u16,
    ); 3])
        requires
            x1 <= MAX_COORDINATE,
            y1 <= MAX_COORDINATE,
            x2 <= MAX_COORDINATE,
            y2 <= MAX_COORDINATE,
        ensures
            window@ == window_of(x1, y1, x2, y2),
    {
        [
            (REG_HORIZONTAL, (x2 + OFFSET) * 256 + (x1 + OFFSET)),
            (REG_VERTICAL, (y2 + OFFSET) * 256 + (y1 + OFFSET)),
            (REG_CURSOR, (y1 + OFFSET) * 256 + (x1 + OFFSET)),
        ]
    }

    /// What filling the whole panel takes.
    pub fn fill_screen(&self) -> (fill: Fill)
        ensures
            fill.window@ == window_of(0, 0, (WIDTH - 1) as u16, (HEIGHT - 1) as u16),
            fill.pixels == WIDTH * HEIGHT,
    {
        Fill {
            window: self.set_window_and_write_start(0, 0, WIDTH - 1, HEIGHT - 1),
            pixels: (WIDTH as u32) * (HEIGHT as u32),
        }
    }

    /// What filling the rectangle of width `w` and height `h` at `(x, y)`
    /// takes: its window and the number of its pixels. An empty rectangle
    /// takes nothing.
    pub fn fill_rect(&self, x: u16, y: u16, w: u16, h: u16) -> (fill: Option<Fill>)
        requires
            x + w <= MAX_COORDINATE + 1,
            y + h <= MAX_COORDINATE + 1,
        ensures
            (w == 0 || h == 0) <==> fill is None,
            fill matches Some(f) ==> f.window@ == window_of(
                x,
                y,
                (x + w - 1) as u16,
                (y + h - 1) as u16,
            ) && f.pixels == w * h,
    {
        if w == 0 || h == 0 {
            return None;
        }
        let x2 = x + w - 1;
        let y2 = y + h - 1;
        assert(w * h <= 254 * 254) by (nonlinear_arith)
            requires
                w <= 254,
                h <= 254,
        ;
        Some(
            Fill {
                window: self.set_window_and_write_start(x, y, x2, y2),
                pixels: (w as u32) * (h as u32),
            },
        )
    }

    /// What drawing the one pixel at `(x, y)` takes.
    pub fn draw_pixel(&self, x: u16, y: u16) -> (fill: Fill)
        requires
            x <= MAX_COORDINATE,
            y <= MAX_COORDINATE,
        ensures
            fill.window@ == window_of(x, y, x, y),
            fill.pixels == 1,
    {
        Fill { window: self.set_window_and_write_start(x, y, x, y), pixels: 1 }
    }

    /// The place of the pixel at `(x, y)` on the panel, or none where it
    /// lies off the panel.
    pub fn clip_pixel(&self, x: i32, y: i32) -> (place: Option<(u16, u16)>)
        ensures
            place is Some <==> 0 <= x < WIDTH && 0 <= y < HEIGHT,
            place matches Some(p) ==> p.0 == x && p.1 == y,
    {
        if x < 0 || y < 0 {
            return None;
        }
        if x >= WIDTH as i32 || y >= HEIGHT as i32 {
            return None;
        }
        Some((x as u16, y as u16))
    }

    /// The number of pixels that go over the bus next, of `remaining` that
    /// are still to go: all of them, or a full chunk where there are more.
    pub fn next_chunk(&self, remaining: u32) -> (pixels: u32)
        ensures
            pixels == if remaining <= CHUNK_PIXELS {
                remaining
            } else {
                CHUNK_PIXELS
            },
    {
        if remaining <= CHUNK_PIXELS {
            remaining
        } else {
            CHUNK_PIXELS
        }
    }
}

} // verus!
