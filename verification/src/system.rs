//! The system device: it keeps the palette of four colors, which a program
//! sets by writing three shorts of red, green and blue nibbles.

use crate::error::UxnError;
use crate::tal::short_of;
use crate::varvara::{port_of, spec_port, Device};
use vstd::prelude::*;

verus! {

/// The system's debug port.
pub const SYSTEM_DEBUG_PORT: u8 = 0xe;

/// The system's state port.
pub const SYSTEM_STATE_PORT: u8 = 0xf;

/// The system device.
pub struct System {
    colors: [u32; 4],
}

impl View for System {
    type V = Seq<u32>;

    /// The palette: four colors, each 0x00RRGGBB.
    closed spec fn view(&self) -> Seq<u32> {
        self.colors@
    }
}

/// The palette of a system that no program has written to.
pub open spec fn default_palette() -> Seq<u32> {
    seq![0xFFFFFFu32, 0x000000u32, 0x77ddbbu32, 0xff6622u32]
}

/// The nibble of `value` for the color `index`: the highest for color 0, the
/// lowest for color 3.
pub open spec fn channel(value: u16, index: int) -> int {
    if index == 0 {
        (value as int / 0x1000) % 16
    } else if index == 1 {
        (value as int / 0x100) % 16
    } else if index == 2 {
        (value as int / 0x10) % 16
    } else {
        value as int % 16
    }
}

/// The color `index` of a palette given as three shorts: each channel's
/// nibble, doubled to a byte, in 0x00RRGGBB.
pub open spec fn spec_shorts_to_0rgb(reds: u16, greens: u16, blues: u16, index: int) -> u32 {
    (channel(reds, index) * 0x110000 + channel(greens, index) * 0x1100 + channel(blues, index)
        * 0x11) as u32
}

/// The palette that the I/O page asks for: reds at ports 8 and 9, greens at
/// 0xa and 0xb, blues at 0xc and 0xd.
pub open spec fn spec_palette(io: Seq<u8>) -> Seq<u32> {
    let reds = short_of(io[0x8], io[0x9]);
    let greens = short_of(io[0xa], io[0xb]);
    let blues = short_of(io[0xc], io[0xd]);
    Seq::new(4, |i: int| spec_shorts_to_0rgb(reds, greens, blues, i))
}

/// What a short written to a system port does to the palette: a write to one
/// of the ports 7 to 0xd sets it from the I/O page, any other leaves it.
pub open spec fn spec_system_deo2(palette: Seq<u32>, io: Seq<u8>, addr: u8) -> Result<
    Seq<u32>,
    UxnError,
> {
    if 0x7 <= spec_port(addr) < 0xe {
        if io.len() < 0xe {
            Err(UxnError::OutOfBounds)
        } else {
            Ok(spec_palette(io))
        }
    } else {
        Ok(palette)
    }
}

/// What a byte written to a system port gives: the debug and the state port
/// are not implemented, and the system has no other byte port.
pub open spec fn spec_system_deo(addr: u8) -> UxnError {
    if spec_port(addr) == SYSTEM_DEBUG_PORT || spec_port(addr) == SYSTEM_STATE_PORT {
        UxnError::UnimplementedFeature
    } else {
        UxnError::UnknownPort
    }
}

/// Shifting and masking picks the nibbles.
proof fn lemma_nibbles(value: u32)
    by (bit_vector)
    requires
        value <= 0xffff,
    ensures
        (value >> 12u32) & 0xF == (value / 0x1000) % 16,
        (value >> 8u32) & 0xF == (value / 0x100) % 16,
        (value >> 4u32) & 0xF == (value / 0x10) % 16,
        (value >> 0u32) & 0xF == value % 16,
{
}

/// Shifting and joining doubles each nibble to a byte.
proof fn lemma_doubled(red: u32, green: u32, blue: u32)
    by (bit_vector)
    requires
        red < 16,
        green < 16,
        blue < 16,
    ensures
        (red << 20u32 | red << 16u32) | (green << 12u32 | green << 8u32) | (blue << 4u32 | blue)
            == red * 0x110000 + green * 0x1100 + blue * 0x11,
{
}

/// The color `index` of a palette given as three shorts.
fn shorts_to_0rgb(reds: u16, greens: u16, blues: u16, index: usize) -> (color: u32)
    requires
        index < 4,
    ensures
        color == spec_shorts_to_0rgb(reds, greens, blues, index as int),
{
    let shift: u32 = 12 - 4 * (index as u32);
    let red = (reds as u32 >> shift) & 0xF;
    let green = (greens as u32 >> shift) & 0xF;
    let blue = (blues as u32 >> shift) & 0xF;
    proof {
        lemma_nibbles(reds as u32);
        lemma_nibbles(greens as u32);
        lemma_nibbles(blues as u32);
        lemma_doubled(red, green, blue);
    }
    let mut color: u32 = 0;
    color |= red << 20 | red << 16;
    color |= green << 12 | green << 8;
    color |= blue << 4 | blue;
    assert(color == (red << 20u32 | red << 16u32) | (green << 12u32 | green << 8u32) | (blue
        << 4u32 | blue)) by (bit_vector)
        requires
            color == ((0u32 | (red << 20u32 | red << 16u32)) | (green << 12u32 | green << 8u32))
                | (blue << 4u32 | blue),
    ;
    color
}

impl System {
    /// A system with the default palette.
    pub fn new() -> (system: System)
        ensures
            system@ == default_palette(),
    {
        let colors: [u32; 4] = [0xFFFFFF, 0x000000, 0x77ddbb, 0xff6622];
        System { colors }
    }

    /// Sets the palette from the color ports of the I/O page.
    fn update_color(&mut self, io: &[u8]) -> (done: Result<(), UxnError>)
        ensures
            io@.len() >= 0xe ==> done == Ok::<(), UxnError>(()) && final(self)@ == spec_palette(io@),
            io@.len() < 0xe ==> done == Err::<(), UxnError>(UxnError::OutOfBounds) && final(self)@
                == old(self)@,
    {
        if io.len() < 0xe {
            return Err(UxnError::OutOfBounds);
        }
        let reds = crate::tal::join_bytes(io[0x8], io[0x9]);
        let greens = crate::tal::join_bytes(io[0xa], io[0xb]);
        let blues = crate::tal::join_bytes(io[0xc], io[0xd]);
        let mut i: usize = 0;
        while i < 4
            invariant
                i <= 4,
                self.colors@.len() == 4,
                forall|j: int|
                    0 <= j < i ==> self.colors@[j] == spec_shorts_to_0rgb(reds, greens, blues, j),
            decreases 4 - i,
        {
            self.colors[i] = shorts_to_0rgb(reds, greens, blues, i);
            i = i + 1;
        }
        Ok(())
    }

    /// The color of the palette at `color`, as 0x00RRGGBB; `None` where the
    /// palette has no such color.
    pub fn index_to_0rgb(&self, color: u8) -> (rgb: Option<u32>)
        ensures
            rgb == (if color < 4 {
                Some(self@[color as int])
            } else {
                None
            }),
    {
        if color < 4 {
            Some(self.colors[color as usize])
        } else {
            None
        }
    }
}

impl Default for System {
    fn default() -> (system: System)
        ensures
            system@ == default_palette(),
    {
        System::new()
    }
}

impl Device for System {
    /// Every system is valid.
    open spec fn wf(&self) -> bool {
        true
    }

    /// No byte port of the system can be written.
    fn notify_deo(&mut self, io: &[u8], main: &[u8], port: u8, value: u8) -> (done: Result<
        (),
        UxnError,
    >)
        ensures
            done == Err::<(), UxnError>(spec_system_deo(port)),
            final(self)@ == old(self)@,
    {
        let p = port_of(port);
        if p == SYSTEM_DEBUG_PORT || p == SYSTEM_STATE_PORT {
            Err(UxnError::UnimplementedFeature)
        } else {
            Err(UxnError::UnknownPort)
        }
    }

    /// A short written to a color port sets the palette from the I/O page.
    fn notify_deo2(&mut self, io: &[u8], main: &[u8], port: u8, value: u16) -> (done: Result<
        (),
        UxnError,
    >)
        ensures
            match spec_system_deo2(old(self)@, io@, port) {
                Ok(palette) => done == Ok::<(), UxnError>(()) && final(self)@ == palette,
                Err(e) => done == Err::<(), UxnError>(e) && final(self)@ == old(self)@,
            },
    {
        let p = port_of(port);
        if 0x7 <= p && p < 0xe {
            self.update_color(io)
        } else {
            Ok(())
        }
    }
}

} // verus!
