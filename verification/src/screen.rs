//! The screen device: a 512 by 320 buffer of pixels, each one of four colors,
//! that a program paints pixel by pixel or sprite by sprite.

use crate::error::UxnError;
use crate::varvara::{port_of, read_bytes, spec_port, Device};
use vstd::prelude::*;

verus! {

/// Pixels in a row of the screen.
pub const WIDTH: usize = 512;

/// Rows of the screen.
pub const HEIGHT: usize = 320;

/// Pixels of the screen.
pub const PIXELS: usize = 163840;

/// The screen's port for the horizontal position.
pub const SCREEN_X_PORT: u8 = 0x8;

/// The screen's port for the vertical position.
pub const SCREEN_Y_PORT: u8 = 0xa;

/// The screen's port for the address of the sprite.
pub const SCREEN_ADDR_PORT: u8 = 0xc;

/// The screen's port that paints one pixel.
pub const SCREEN_PIXEL_PORT: u8 = 0xe;

/// The screen's port that paints one sprite.
pub const SCREEN_SPRITE_PORT: u8 = 0xf;

/// The screen device.
pub struct Screen {
    buffer: Vec<u8>,
    x: u16,
    y: u16,
    addr: u16,
}

/// The mathematical value of a screen: its pixels row by row, the position to
/// paint at, and the address of the sprite to paint.
pub struct ScreenState {
    pub buffer: Seq<u8>,
    pub x: u16,
    pub y: u16,
    pub addr: u16,
}

impl View for Screen {
    type V = ScreenState;

    closed spec fn view(&self) -> ScreenState {
        ScreenState { buffer: self.buffer@, x: self.x, y: self.y, addr: self.addr }
    }
}

/// A screen is well formed when it has all its pixels, and each is one of the
/// four colors.
pub open spec fn screen_wf(state: ScreenState) -> bool {
    &&& state.buffer.len() == PIXELS
    &&& forall|i: int| 0 <= i < state.buffer.len() ==> #[trigger] state.buffer[i] < 4
}

/// Where in the buffer the pixel at column `x` of row `y` lies.
pub open spec fn pixel_index(x: u16, y: u16) -> int {
    x + WIDTH * y
}

/// The color that a byte asks for: the byte modulo 4, its low two bits.
pub open spec fn pixel_color(byte: u8) -> u8 {
    (byte % 4) as u8
}

/// The screen after one pixel was painted at its position.
pub open spec fn spec_draw_pixel(state: ScreenState, byte: u8) -> Result<ScreenState, UxnError> {
    let index = pixel_index(state.x, state.y);
    if index < state.buffer.len() {
        Ok(
            ScreenState {
                buffer: state.buffer.update(index, pixel_color(byte)),
                x: state.x,
                y: state.y,
                addr: state.addr,
            },
        )
    } else {
        Err(UxnError::OutOfBounds)
    }
}

/// Whether a sprite byte asks for two bits per pixel: its highest bit.
pub open spec fn is_2bpp(byte: u8) -> bool {
    byte >= 0x80
}

/// The weight of the bit for column `col` in a row of sprite data: 128 for
/// column 0, the highest bit, down to 1 for column 7.
pub open spec fn column_weight(col: u8) -> int {
    if col == 0 {
        128
    } else if col == 1 {
        64
    } else if col == 2 {
        32
    } else if col == 3 {
        16
    } else if col == 4 {
        8
    } else if col == 5 {
        4
    } else if col == 6 {
        2
    } else {
        1
    }
}

/// Whether the bit for column `col` is set in a row of sprite data.
pub open spec fn bit_set(data: u8, col: u8) -> bool {
    (data as int / column_weight(col)) % 2 == 1
}

/// The foreground color of a sprite of one bit per pixel: the sprite byte
/// modulo 4, its low two bits.
pub open spec fn foreground(byte: u8) -> u8 {
    (byte % 4) as u8
}

/// The background color of a sprite of one bit per pixel: the two bits above
/// the foreground.
pub open spec fn background(byte: u8) -> u8 {
    ((byte / 4) % 4) as u8
}

/// The color of a pixel of a sprite of one bit per pixel: the foreground
/// where the bit is set, the background where it is not.
pub open spec fn spec_pixel_1bpp(byte: u8, data: u8, col: u8) -> u8 {
    if bit_set(data, col) {
        foreground(byte)
    } else {
        background(byte)
    }
}

/// The four colors that a sprite byte picks for a sprite of two bits per
/// pixel, by its value modulo 16, its low four bits.
pub open spec fn spec_blend(byte: u8) -> (u8, u8, u8, u8) {
    let set = byte % 16;
    if set == 0x0 {
        (0, 0, 1, 2)
    } else if set == 0x1 {
        (0, 1, 2, 3)
    } else if set == 0x2 {
        (0, 2, 3, 1)
    } else if set == 0x3 {
        (0, 3, 1, 2)
    } else if set == 0x4 {
        (1, 0, 1, 2)
    } else if set == 0x5 {
        (0, 1, 2, 3)
    } else if set == 0x6 {
        (1, 2, 3, 1)
    } else if set == 0x7 {
        (1, 3, 1, 2)
    } else if set == 0x8 {
        (2, 0, 1, 2)
    } else if set == 0x9 {
        (2, 1, 2, 3)
    } else if set == 0xa {
        (0, 2, 3, 1)
    } else if set == 0xb {
        (2, 3, 1, 2)
    } else if set == 0xc {
        (3, 0, 1, 2)
    } else if set == 0xd {
        (3, 1, 2, 3)
    } else if set == 0xe {
        (3, 2, 3, 1)
    } else {
        (0, 3, 1, 2)
    }
}

/// The color of a pixel of a sprite of two bits per pixel: one of the four
/// colors picked by the sprite byte, by the bit in the first plane and the
/// bit in the second.
pub open spec fn spec_pixel_2bpp(byte: u8, first: u8, second: u8, col: u8) -> u8 {
    let colors = spec_blend(byte);
    if bit_set(first, col) {
        if bit_set(second, col) {
            colors.3
        } else {
            colors.2
        }
    } else {
        if bit_set(second, col) {
            colors.1
        } else {
            colors.0
        }
    }
}

/// The color of the pixel in row `row` and column `col` of the sprite at
/// `addr`: eight bytes, one per row, for one bit per pixel; eight more for the
/// second plane of two bits per pixel.
pub open spec fn spec_sprite_pixel(byte: u8, mem: Seq<u8>, addr: int, row: int, col: int) -> u8 {
    if is_2bpp(byte) {
        spec_pixel_2bpp(byte, mem[addr + row], mem[addr + 8 + row], col as u8)
    } else {
        spec_pixel_1bpp(byte, mem[addr + row], col as u8)
    }
}

/// How many bytes of memory a sprite takes.
pub open spec fn sprite_bytes(byte: u8) -> int {
    if is_2bpp(byte) {
        16
    } else {
        8
    }
}

/// Whether the pixel at `offset` from the sprite's first pixel belongs to the
/// sprite, and is painted before the pixel in row `row` and column `col`.
pub open spec fn painted(offset: int, row: int, col: int) -> bool {
    &&& 0 <= offset
    &&& offset % (WIDTH as int) < 8
    &&& (offset / (WIDTH as int) < row || (offset / (WIDTH as int) == row && offset % (
    WIDTH as int) < col))
}

/// The buffer with the first rows and columns of a sprite painted from
/// `index` on: the eight pixels of each row, a row of the screen apart.
pub open spec fn spec_painted(
    buffer: Seq<u8>,
    index: int,
    byte: u8,
    mem: Seq<u8>,
    addr: int,
    row: int,
    col: int,
) -> Seq<u8> {
    Seq::new(
        buffer.len(),
        |i: int|
            if painted(i - index, row, col) {
                spec_sprite_pixel(
                    byte,
                    mem,
                    addr,
                    (i - index) / (WIDTH as int),
                    (i - index) % (WIDTH as int),
                )
            } else {
                buffer[i]
            },
    )
}

/// The screen after one sprite was painted at its position, from the memory
/// at its address. Nothing is painted unless the memory holds the whole
/// sprite and the buffer holds the whole square.
pub open spec fn spec_draw_sprite(state: ScreenState, byte: u8, mem: Seq<u8>) -> Result<
    ScreenState,
    UxnError,
> {
    let index = pixel_index(state.x, state.y);
    if state.addr + sprite_bytes(byte) > mem.len() || index + 7 * WIDTH + 8 > state.buffer.len() {
        Err(UxnError::OutOfBounds)
    } else {
        Ok(
            ScreenState {
                buffer: spec_painted(state.buffer, index, byte, mem, state.addr as int, 8, 0),
                x: state.x,
                y: state.y,
                addr: state.addr,
            },
        )
    }
}

/// What a byte written to a screen port does: the pixel port paints a pixel,
/// the sprite port a sprite, and the screen has no other byte port.
pub open spec fn spec_screen_deo(state: ScreenState, mem: Seq<u8>, addr: u8, byte: u8) -> Result<
    ScreenState,
    UxnError,
> {
    if spec_port(addr) == SCREEN_PIXEL_PORT {
        spec_draw_pixel(state, byte)
    } else if spec_port(addr) == SCREEN_SPRITE_PORT {
        spec_draw_sprite(state, byte, mem)
    } else {
        Err(UxnError::UnknownPort)
    }
}

/// What a short written to a screen port does: it sets the horizontal
/// position, the vertical position or the sprite's address, and the screen
/// has no other short port.
pub open spec fn spec_screen_deo2(state: ScreenState, addr: u8, short: u16) -> Result<
    ScreenState,
    UxnError,
> {
    if spec_port(addr) == SCREEN_X_PORT {
        Ok(ScreenState { buffer: state.buffer, x: short, y: state.y, addr: state.addr })
    } else if spec_port(addr) == SCREEN_Y_PORT {
        Ok(ScreenState { buffer: state.buffer, x: state.x, y: short, addr: state.addr })
    } else if spec_port(addr) == SCREEN_ADDR_PORT {
        Ok(ScreenState { buffer: state.buffer, x: state.x, y: state.y, addr: short })
    } else {
        Err(UxnError::UnknownPort)
    }
}

/// Masking and shifting a sprite byte picks its fields.
proof fn lemma_colors(byte: u8)
    by (bit_vector)
    ensures
        byte & 0b0000_0011 == byte % 4,
        (byte & 0b0000_1100) >> 2 == (byte / 4) % 4,
        byte & 0b0000_1111 == byte % 16,
        (byte & 0b1000_0000 != 0) == (byte >= 0x80),
{
}

/// Masking a row of sprite data picks the column's bit.
proof fn lemma_column(data: u8, col: u8)
    by (bit_vector)
    requires
        col < 8,
    ensures
        col == 0 ==> (data & (0b1000_0000u8 >> col) != 0) == ((data / 128) % 2 == 1),
        col == 1 ==> (data & (0b1000_0000u8 >> col) != 0) == ((data / 64) % 2 == 1),
        col == 2 ==> (data & (0b1000_0000u8 >> col) != 0) == ((data / 32) % 2 == 1),
        col == 3 ==> (data & (0b1000_0000u8 >> col) != 0) == ((data / 16) % 2 == 1),
        col == 4 ==> (data & (0b1000_0000u8 >> col) != 0) == ((data / 8) % 2 == 1),
        col == 5 ==> (data & (0b1000_0000u8 >> col) != 0) == ((data / 4) % 2 == 1),
        col == 6 ==> (data & (0b1000_0000u8 >> col) != 0) == ((data / 2) % 2 == 1),
        col == 7 ==> (data & (0b1000_0000u8 >> col) != 0) == ((data / 1) % 2 == 1),
{
}

/// The color of a pixel of a sprite of one bit per pixel.
fn pixel_1bpp(byte: u8, data: u8, col: u8) -> (color: u8)
    requires
        col < 8,
    ensures
        color == spec_pixel_1bpp(byte, data, col),
        color < 4,
{
    proof {
        lemma_colors(byte);
        lemma_column(data, col);
    }
    let mask: u8 = 0b1000_0000u8 >> col;
    if data & mask != 0 {
        byte & 0b0000_0011
    } else {
        (byte & 0b0000_1100) >> 2
    }
}

/// The four colors that a sprite byte picks.
fn blend(byte: u8) -> (colors: (u8, u8, u8, u8))
    ensures
        colors == spec_blend(byte),
        colors.0 < 4 && colors.1 < 4 && colors.2 < 4 && colors.3 < 4,
{
    proof {
        lemma_colors(byte);
    }
    let set = byte & 0b0000_1111;
    if set == 0x0 {
        (0, 0, 1, 2)
    } else if set == 0x1 {
        (0, 1, 2, 3)
    } else if set == 0x2 {
        (0, 2, 3, 1)
    } else if set == 0x3 {
        (0, 3, 1, 2)
    } else if set == 0x4 {
        (1, 0, 1, 2)
    } else if set == 0x5 {
        (0, 1, 2, 3)
    } else if set == 0x6 {
        (1, 2, 3, 1)
    } else if set == 0x7 {
        (1, 3, 1, 2)
    } else if set == 0x8 {
        (2, 0, 1, 2)
    } else if set == 0x9 {
        (2, 1, 2, 3)
    } else if set == 0xa {
        (0, 2, 3, 1)
    } else if set == 0xb {
        (2, 3, 1, 2)
    } else if set == 0xc {
        (3, 0, 1, 2)
    } else if set == 0xd {
        (3, 1, 2, 3)
    } else if set == 0xe {
        (3, 2, 3, 1)
    } else {
        (0, 3, 1, 2)
    }
}

/// The color of a pixel of a sprite of two bits per pixel, among `colors`.
fn pixel_2bpp(colors: (u8, u8, u8, u8), first: u8, second: u8, col: u8) -> (color: u8)
    requires
        col < 8,
        colors.0 < 4 && colors.1 < 4 && colors.2 < 4 && colors.3 < 4,
    ensures
        forall|byte: u8|
            colors == #[trigger] spec_blend(byte) ==> color == spec_pixel_2bpp(
                byte,
                first,
                second,
                col,
            ),
        color < 4,
{
    proof {
        lemma_column(first, col);
        lemma_column(second, col);
    }
    let mask: u8 = 0b1000_0000u8 >> col;
    if first & mask != 0 {
        if second & mask != 0 {
            colors.3
        } else {
            colors.2
        }
    } else {
        if second & mask != 0 {
            colors.1
        } else {
            colors.0
        }
    }
}

impl Screen {
    /// A screen with every pixel of color 0, at position 0, 0.
    pub fn new() -> (screen: Screen)
        ensures
            screen@ == (ScreenState { buffer: Seq::new(PIXELS as nat, |i: int| 0u8), x: 0, y: 0, addr: 0 }),
            screen.wf(),
    {
        let mut buffer: Vec<u8> = Vec::new();
        let mut i: usize = 0;
        while i < PIXELS
            invariant
                i <= PIXELS,
                buffer@.len() == i,
                forall|j: int| 0 <= j < i ==> buffer@[j] == 0,
            decreases PIXELS - i,
        {
            buffer.push(0);
            i = i + 1;
        }
        assert(buffer@ =~= Seq::new(PIXELS as nat, |i: int| 0u8));
        Screen { buffer, x: 0, y: 0, addr: 0 }
    }

    /// The pixels, row by row: each one of the colors 0 to 3.
    pub fn buffer(&self) -> (pixels: &Vec<u8>)
        ensures
            pixels@ == self@.buffer,
    {
        &self.buffer
    }

    /// Gives every pixel the color 0.
    pub fn clear(&mut self)
        requires
            old(self).wf(),
        ensures
            final(self).wf(),
            final(self)@ == (ScreenState {
                buffer: Seq::new(PIXELS as nat, |i: int| 0u8),
                x: old(self)@.x,
                y: old(self)@.y,
                addr: old(self)@.addr,
            }),
    {
        let mut i: usize = 0;
        while i < PIXELS
            invariant
                i <= PIXELS,
                self.buffer@.len() == PIXELS,
                self.x == old(self).x,
                self.y == old(self).y,
                self.addr == old(self).addr,
                forall|j: int| 0 <= j < i ==> self.buffer@[j] == 0,
                forall|j: int| 0 <= j < PIXELS ==> #[trigger] self.buffer@[j] < 4,
            decreases PIXELS - i,
        {
            self.buffer[i] = 0;
            i = i + 1;
        }
        assert(self.buffer@ =~= Seq::new(PIXELS as nat, |i: int| 0u8));
    }

    /// Paints the pixel at the screen's position with the color that `byte`
    /// asks for.
    pub fn draw_pixel(&mut self, byte: u8) -> (done: Result<(), UxnError>)
        requires
            old(self).wf(),
        ensures
            final(self).wf(),
            match spec_draw_pixel(old(self)@, byte) {
                Ok(state) => done == Ok::<(), UxnError>(()) && final(self)@ == state,
                Err(e) => done == Err::<(), UxnError>(e) && final(self)@ == old(self)@,
            },
    {
        proof {
            lemma_colors(byte);
        }
        let color = byte & 0b0000_0011;
        let index = self.x as usize + WIDTH * self.y as usize;
        if index >= self.buffer.len() {
            return Err(UxnError::OutOfBounds);
        }
        self.buffer[index] = color;
        Ok(())
    }

    /// Paints the sprite at the screen's address in `mem` at the screen's
    /// position, as `byte` asks: with one or two bits per pixel, and in its
    /// colors.
    pub fn draw_sprite(&mut self, byte: u8, mem: &[u8]) -> (done: Result<(), UxnError>)
        requires
            old(self).wf(),
        ensures
            final(self).wf(),
            match spec_draw_sprite(old(self)@, byte, mem@) {
                Ok(state) => done == Ok::<(), UxnError>(()) && final(self)@ == state,
                Err(e) => done == Err::<(), UxnError>(e) && final(self)@ == old(self)@,
            },
    {
        proof {
            lemma_colors(byte);
        }
        if byte & 0b1000_0000 != 0 {
            self.draw_sprite_2bpp(byte, mem)
        } else {
            self.draw_sprite_1bpp(byte, mem)
        }
    }

    /// Paints a sprite of two bits per pixel: sixteen bytes of memory, eight
    /// for each plane.
    fn draw_sprite_2bpp(&mut self, byte: u8, mem: &[u8]) -> (done: Result<(), UxnError>)
        requires
            old(self).wf(),
            is_2bpp(byte),
        ensures
            final(self).wf(),
            match spec_draw_sprite(old(self)@, byte, mem@) {
                Ok(state) => done == Ok::<(), UxnError>(()) && final(self)@ == state,
                Err(e) => done == Err::<(), UxnError>(e) && final(self)@ == old(self)@,
            },
    {
        let data = match read_bytes(mem, self.addr, 16) {
            Ok(d) => d,
            Err(e) => {
                return Err(e);
            },
        };
        let colors = blend(byte);
        let index = self.x as usize + WIDTH * self.y as usize;
        if index + 7 * WIDTH + 8 > self.buffer.len() {
            return Err(UxnError::OutOfBounds);
        }
        let ghost before = self.buffer@;
        let ghost addr = self.addr as int;
        let mut row: usize = 0;
        while row < 8
            invariant
                row <= 8,
                addr == self.addr,
                data@ == mem@.subrange(addr, addr + 16),
                addr + 16 <= mem@.len(),
                is_2bpp(byte),
                colors == spec_blend(byte),
                colors.0 < 4 && colors.1 < 4 && colors.2 < 4 && colors.3 < 4,
                index + 7 * WIDTH + 8 <= PIXELS,
                self.x == old(self).x,
                self.y == old(self).y,
                self.addr == old(self).addr,
                before.len() == PIXELS,
                self.buffer@ == spec_painted(before, index as int, byte, mem@, addr, row as int, 0),
                forall|j: int| 0 <= j < PIXELS ==> #[trigger] self.buffer@[j] < 4,
            decreases 8 - row,
        {
            let first = data[row];
            let second = data[row + 8];
            let mut col: usize = 0;
            while col < 8
                invariant
                    row < 8,
                    col <= 8,
                    first == mem@[addr + row],
                    second == mem@[addr + 8 + row],
                    is_2bpp(byte),
                    colors == spec_blend(byte),
                    colors.0 < 4 && colors.1 < 4 && colors.2 < 4 && colors.3 < 4,
                    index + 7 * WIDTH + 8 <= PIXELS,
                    self.x == old(self).x,
                    self.y == old(self).y,
                    self.addr == old(self).addr,
                    before.len() == PIXELS,
                    self.buffer@ == spec_painted(
                        before,
                        index as int,
                        byte,
                        mem@,
                        addr,
                        row as int,
                        col as int,
                    ),
                    forall|j: int| 0 <= j < PIXELS ==> #[trigger] self.buffer@[j] < 4,
                decreases 8 - col,
            {
                let color = pixel_2bpp(colors, first, second, col as u8);
                let at = index + row * WIDTH + col;
                self.buffer[at] = color;
                col = col + 1;
            }
            row = row + 1;
        }
        Ok(())
    }

    /// Paints a sprite of one bit per pixel: eight bytes of memory, in the
    /// foreground color where a bit is set and the background color where not.
    fn draw_sprite_1bpp(&mut self, byte: u8, mem: &[u8]) -> (done: Result<(), UxnError>)
        requires
            old(self).wf(),
            !is_2bpp(byte),
        ensures
            final(self).wf(),
            match spec_draw_sprite(old(self)@, byte, mem@) {
                Ok(state) => done == Ok::<(), UxnError>(()) && final(self)@ == state,
                Err(e) => done == Err::<(), UxnError>(e) && final(self)@ == old(self)@,
            },
    {
        let data = match read_bytes(mem, self.addr, 8) {
            Ok(d) => d,
            Err(e) => {
                return Err(e);
            },
        };
        let index = self.x as usize + WIDTH * self.y as usize;
        if index + 7 * WIDTH + 8 > self.buffer.len() {
            return Err(UxnError::OutOfBounds);
        }
        let ghost before = self.buffer@;
        let ghost addr = self.addr as int;
        let mut row: usize = 0;
        while row < 8
            invariant
                row <= 8,
                addr == self.addr,
                data@ == mem@.subrange(addr, addr + 8),
                addr + 8 <= mem@.len(),
                !is_2bpp(byte),
                index + 7 * WIDTH + 8 <= PIXELS,
                self.x == old(self).x,
                self.y == old(self).y,
                self.addr == old(self).addr,
                before.len() == PIXELS,
                self.buffer@ == spec_painted(before, index as int, byte, mem@, addr, row as int, 0),
                forall|j: int| 0 <= j < PIXELS ==> #[trigger] self.buffer@[j] < 4,
            decreases 8 - row,
        {
            let bits = data[row];
            let mut col: usize = 0;
            while col < 8
                invariant
                    row < 8,
                    col <= 8,
                    bits == mem@[addr + row],
                    !is_2bpp(byte),
                    index + 7 * WIDTH + 8 <= PIXELS,
                    self.x == old(self).x,
                    self.y == old(self).y,
                    self.addr == old(self).addr,
                    before.len() == PIXELS,
                    self.buffer@ == spec_painted(
                        before,
                        index as int,
                        byte,
                        mem@,
                        addr,
                        row as int,
                        col as int,
                    ),
                    forall|j: int| 0 <= j < PIXELS ==> #[trigger] self.buffer@[j] < 4,
                decreases 8 - col,
            {
                let color = pixel_1bpp(byte, bits, col as u8);
                let at = index + row * WIDTH + col;
                self.buffer[at] = color;
                col = col + 1;
            }
            row = row + 1;
        }
        Ok(())
    }
}

impl Default for Screen {
    fn default() -> (screen: Screen)
        ensures
            screen@ == (ScreenState { buffer: Seq::new(PIXELS as nat, |i: int| 0u8), x: 0, y: 0, addr: 0 }),
            screen.wf(),
    {
        Screen::new()
    }
}

impl Device for Screen {
    open spec fn wf(&self) -> bool {
        screen_wf(self@)
    }

    /// A byte for the pixel port paints a pixel, one for the sprite port a
    /// sprite from `main`.
    fn notify_deo(&mut self, io: &[u8], main: &[u8], port: u8, value: u8) -> (done: Result<
        (),
        UxnError,
    >)
        ensures
            match spec_screen_deo(old(self)@, main@, port, value) {
                Ok(state) => done == Ok::<(), UxnError>(()) && final(self)@ == state,
                Err(e) => done == Err::<(), UxnError>(e) && final(self)@ == old(self)@,
            },
    {
        let p = port_of(port);
        if p == SCREEN_PIXEL_PORT {
            self.draw_pixel(value)
        } else if p == SCREEN_SPRITE_PORT {
            self.draw_sprite(value, main)
        } else {
            Err(UxnError::UnknownPort)
        }
    }

    /// A short sets the position or the sprite's address.
    fn notify_deo2(&mut self, io: &[u8], main: &[u8], port: u8, value: u16) -> (done: Result<
        (),
        UxnError,
    >)
        ensures
            match spec_screen_deo2(old(self)@, port, value) {
                Ok(state) => done == Ok::<(), UxnError>(()) && final(self)@ == state,
                Err(e) => done == Err::<(), UxnError>(e) && final(self)@ == old(self)@,
            },
    {
        let p = port_of(port);
        if p == SCREEN_X_PORT {
            self.x = value;
            Ok(())
        } else if p == SCREEN_Y_PORT {
            self.y = value;
            Ok(())
        } else if p == SCREEN_ADDR_PORT {
            self.addr = value;
            Ok(())
        } else {
            Err(UxnError::UnknownPort)
        }
    }
}

} // verus!
