//! The device bus: the 64KB memory, the 256-byte I/O page, and the routing of
//! port writes to the devices.

use crate::console::{spec_console_deo, Console};
use crate::error::UxnError;
use crate::screen::{
    screen_wf, spec_screen_deo, spec_screen_deo2, Screen, ScreenState, PIXELS,
};
use crate::system::{spec_system_deo, spec_system_deo2, System};
use crate::tal::{write_at, MEMORY_SIZE, PROGRAM_START};
use crate::tal::{high_byte, low_byte, short_of};
use vstd::prelude::*;

verus! {

/// Number of ports in the I/O page.
pub const IO_SIZE: usize = 0x100;

/// A peripheral on the bus. It is told of every write to one of its ports,
/// after the I/O page has taken the value, and may read the I/O page and the
/// memory. It is never told of a read.
///
/// A device that does nothing on a write need not say so: both notifications
/// do nothing unless a device defines them.
pub trait Device: Sized {
    /// The device's own state is valid. The bus notifies only valid devices,
    /// and a notification leaves the device valid.
    spec fn wf(&self) -> bool;

    /// A byte was written to `port`.
    ///
    /// A device that does not define this notification takes no notice of the
    /// write: it reports success and stays as it was.
    fn notify_deo(&mut self, io: &[u8], main: &[u8], port: u8, value: u8) -> (done: Result<
        (),
        UxnError,
    >)
        requires
            old(self).wf(),
        ensures
            final(self).wf(),
        default_ensures
            done == Ok::<(), UxnError>(()),
            *final(self) == *old(self),
    {
        Ok(())
    }

    /// A short was written to `port` and the port after it.
    ///
    /// A device that does not define this notification takes no notice of the
    /// write: it reports success and stays as it was.
    fn notify_deo2(&mut self, io: &[u8], main: &[u8], port: u8, value: u16) -> (done: Result<
        (),
        UxnError,
    >)
        requires
            old(self).wf(),
        ensures
            final(self).wf(),
        default_ensures
            done == Ok::<(), UxnError>(()),
            *final(self) == *old(self),
    {
        Ok(())
    }
}

/// The port within its device: the port address modulo 16, its low four
/// bits.
pub open spec fn spec_port(addr: u8) -> u8 {
    (addr % 16) as u8
}

/// The port within its device: the low four bits of a port address.
pub fn port_of(addr: u8) -> (port: u8)
    ensures
        port == spec_port(addr),
{
    assert(addr & 0x0f == addr % 16) by (bit_vector);
    addr & 0x0f
}

/// `mem` with `short` stored at `addr`, high byte first. The low byte goes to
/// the address after `addr`, which is 0 after 0xff. `None` where `mem` is too
/// short for either.
pub open spec fn spec_write_short(mem: Seq<u8>, addr: u8, short: u16) -> Option<Seq<u8>> {
    if addr < mem.len() && addr.wrapping_add(1) < mem.len() {
        Some(
            mem.update(addr as int, high_byte(short)).update(
                addr.wrapping_add(1) as int,
                low_byte(short),
            ),
        )
    } else {
        None
    }
}

/// The short stored in `mem` at `addr`, high byte first, with the low byte at
/// the address after `addr`, which is 0 after 0xff. `None` where `mem` is too
/// short for either.
pub open spec fn spec_read_short(mem: Seq<u8>, addr: u8) -> Option<u16> {
    if addr < mem.len() && addr.wrapping_add(1) < mem.len() {
        Some(short_of(mem[addr as int], mem[addr.wrapping_add(1) as int]))
    } else {
        None
    }
}

/// Stores a short at a port address, high byte first.
pub fn write_short(mem: &mut [u8], addr: u8, short: u16) -> (done: Result<(), UxnError>)
    ensures
        match spec_write_short(old(mem)@, addr, short) {
            Some(after) => done == Ok::<(), UxnError>(()) && final(mem)@ == after,
            None => done == Err::<(), UxnError>(UxnError::OutOfBounds) && final(mem)@ == old(mem)@,
        },
{
    let addr_high = addr as usize;
    let addr_low = addr.wrapping_add(1) as usize;
    if addr_high >= mem.len() || addr_low >= mem.len() {
        return Err(UxnError::OutOfBounds);
    }
    let (high, low) = crate::tal::split_short(short);
    mem[addr_high] = high;
    mem[addr_low] = low;
    Ok(())
}

/// Reads a short at a port address, high byte first.
pub fn read_short(mem: &[u8], addr: u8) -> (short: Result<u16, UxnError>)
    ensures
        short == match spec_read_short(mem@, addr) {
            Some(value) => Ok::<u16, UxnError>(value),
            None => Err::<u16, UxnError>(UxnError::OutOfBounds),
        },
{
    let addr_high = addr as usize;
    let addr_low = addr.wrapping_add(1) as usize;
    if addr_high >= mem.len() || addr_low >= mem.len() {
        return Err(UxnError::OutOfBounds);
    }
    Ok(crate::tal::join_bytes(mem[addr_high], mem[addr_low]))
}

/// The `num_bytes` bytes of `mem` from `addr` on, where `mem` holds them all.
pub fn read_bytes(mem: &[u8], addr: u16, num_bytes: u8) -> (bytes: Result<&[u8], UxnError>)
    ensures
        addr + num_bytes <= mem@.len() ==> bytes is Ok && bytes->Ok_0@ == mem@.subrange(
            addr as int,
            addr + num_bytes,
        ),
        addr + num_bytes > mem@.len() ==> bytes == Err::<&[u8], UxnError>(UxnError::OutOfBounds),
{
    let start = addr as usize;
    let count = num_bytes as usize;
    if start > mem.len() || count > mem.len() - start {
        return Err(UxnError::OutOfBounds);
    }
    Ok(vstd::slice::slice_subrange(mem, start, start + count))
}

/// First port of the console's slot.
pub const CONSOLE_SLOT: u8 = 0x10;

/// First port of the screen's slot.
pub const SCREEN_SLOT: u8 = 0x20;

/// First port after the slots that have a device.
pub const UNUSED_SLOTS: u8 = 0x30;

/// The bus with all that hangs on it: the memory, the I/O page, and the
/// system, console and screen devices in the first three slots.
pub struct Varvara {
    pub main: [u8; 65536],
    pub io: [u8; 256],
    pub system: System,
    pub console: Console,
    pub screen: Screen,
}

/// The mathematical value of the bus: the memory, the I/O page, the palette,
/// the console's pending output and the screen.
pub struct BusState {
    pub main: Seq<u8>,
    pub io: Seq<u8>,
    pub palette: Seq<u32>,
    pub pending: Seq<u8>,
    pub screen: ScreenState,
}

impl View for Varvara {
    type V = BusState;

    open spec fn view(&self) -> BusState {
        BusState {
            main: self.main@,
            io: self.io@,
            palette: self.system@,
            pending: self.console@,
            screen: self.screen@,
        }
    }
}

/// The bus after a byte was written to a port, and whether the write went
/// well.
///
/// The I/O page takes the byte first. Then the device of the port's slot is
/// told, and what it reports is the result; a slot without a device reports
/// an unknown port. A device that reports an error is left as it was.
pub open spec fn spec_deo(bus: BusState, addr: u8, byte: u8) -> (BusState, Result<(), UxnError>) {
    let io = bus.io.update(addr as int, byte);
    if addr < CONSOLE_SLOT {
        (
            BusState {
                main: bus.main,
                io,
                palette: bus.palette,
                pending: bus.pending,
                screen: bus.screen,
            },
            Err(spec_system_deo(addr)),
        )
    } else if addr < SCREEN_SLOT {
        match spec_console_deo(bus.pending, addr, byte) {
            Ok(pending) => (
                BusState { main: bus.main, io, palette: bus.palette, pending, screen: bus.screen },
                Ok(()),
            ),
            Err(e) => (
                BusState {
                    main: bus.main,
                    io,
                    palette: bus.palette,
                    pending: bus.pending,
                    screen: bus.screen,
                },
                Err(e),
            ),
        }
    } else if addr < UNUSED_SLOTS {
        match spec_screen_deo(bus.screen, bus.main, addr, byte) {
            Ok(screen) => (
                BusState { main: bus.main, io, palette: bus.palette, pending: bus.pending, screen },
                Ok(()),
            ),
            Err(e) => (
                BusState {
                    main: bus.main,
                    io,
                    palette: bus.palette,
                    pending: bus.pending,
                    screen: bus.screen,
                },
                Err(e),
            ),
        }
    } else {
        (
            BusState {
                main: bus.main,
                io,
                palette: bus.palette,
                pending: bus.pending,
                screen: bus.screen,
            },
            Err(UxnError::UnknownPort),
        )
    }
}

/// The bus after a short was written to a port, and whether the write went
/// well.
///
/// A short at the last port of a slot would reach into the next slot: it is
/// refused, and nothing changes. Otherwise the I/O page takes the short, high
/// byte first, and the device of the port's slot is told, as for a byte.
pub open spec fn spec_deo2(bus: BusState, addr: u8, short: u16) -> (BusState, Result<
    (),
    UxnError,
>) {
    if spec_port(addr) == 0x0f {
        (bus, Err(UxnError::CrossDeviceShortWrite))
    } else {
        let io = spec_write_short(bus.io, addr, short)->Some_0;
        if addr < CONSOLE_SLOT {
            match spec_system_deo2(bus.palette, io, addr) {
                Ok(palette) => (
                    BusState { main: bus.main, io, palette, pending: bus.pending, screen: bus.screen },
                    Ok(()),
                ),
                Err(e) => (
                    BusState {
                        main: bus.main,
                        io,
                        palette: bus.palette,
                        pending: bus.pending,
                        screen: bus.screen,
                    },
                    Err(e),
                ),
            }
        } else if SCREEN_SLOT <= addr < UNUSED_SLOTS {
            match spec_screen_deo2(bus.screen, addr, short) {
                Ok(screen) => (
                    BusState {
                        main: bus.main,
                        io,
                        palette: bus.palette,
                        pending: bus.pending,
                        screen,
                    },
                    Ok(()),
                ),
                Err(e) => (
                    BusState {
                        main: bus.main,
                        io,
                        palette: bus.palette,
                        pending: bus.pending,
                        screen: bus.screen,
                    },
                    Err(e),
                ),
            }
        } else {
            (
                BusState {
                    main: bus.main,
                    io,
                    palette: bus.palette,
                    pending: bus.pending,
                    screen: bus.screen,
                },
                Err(UxnError::UnknownPort),
            )
        }
    }
}

/// The memory with an image loaded at 0x0100. What of the image does not fit
/// below the end of the memory is left out.
pub open spec fn spec_load(main: Seq<u8>, rom: Seq<u8>) -> Seq<u8> {
    let room = MEMORY_SIZE - PROGRAM_START;
    write_at(
        main,
        PROGRAM_START as int,
        if rom.len() <= room {
            rom
        } else {
            rom.take(room)
        },
    )
}

impl Varvara {
    /// The screen is valid; the other parts of the bus always are.
    pub open spec fn wf(&self) -> bool {
        screen_wf(self.screen@)
    }

    /// A bus with memory and I/O page of zeros, and fresh devices.
    pub fn new() -> (bus: Varvara)
        ensures
            bus.wf(),
            bus@.main == Seq::new(MEMORY_SIZE as nat, |i: int| 0u8),
            bus@.io == Seq::new(IO_SIZE as nat, |i: int| 0u8),
            bus@.palette == crate::system::default_palette(),
            bus@.pending == Seq::<u8>::empty(),
            bus@.screen == (ScreenState {
                buffer: Seq::new(PIXELS as nat, |i: int| 0u8),
                x: 0,
                y: 0,
                addr: 0,
            }),
    {
        let main: [u8; 65536] = [0u8; 65536];
        let io: [u8; 256] = [0u8; 256];
        Varvara {
            main,
            io,
            system: System::new(),
            console: Console::new(),
            screen: Screen::new(),
        }
    }

    /// Loads a binary image at 0x0100.
    pub fn load(&mut self, rom: &[u8])
        ensures
            final(self)@ == (BusState {
                main: spec_load(old(self)@.main, rom@),
                io: old(self)@.io,
                palette: old(self)@.palette,
                pending: old(self)@.pending,
                screen: old(self)@.screen,
            }),
    {
        let room: usize = MEMORY_SIZE - 0x0100;
        let count: usize = if rom.len() <= room {
            rom.len()
        } else {
            room
        };
        let ghost image = if rom@.len() <= room {
            rom@
        } else {
            rom@.take(room as int)
        };
        let mut k: usize = 0;
        while k < count
            invariant
                k <= count <= room,
                room == MEMORY_SIZE - 0x0100,
                count == image.len(),
                count <= rom@.len(),
                forall|j: int| 0 <= j < count ==> image[j] == rom@[j],
                self.main@ == write_at(old(self).main@, 0x0100, image.take(k as int)),
                self.io == old(self).io,
                self.system == old(self).system,
                self.console == old(self).console,
                self.screen == old(self).screen,
            decreases count - k,
        {
            self.main[0x0100 + k] = rom[k];
            k = k + 1;
        }
        assert(image.take(k as int) =~= image);
    }

    /// Writes a byte to a port: into the I/O page, and on to the device.
    pub fn deo(&mut self, addr: u8, byte: u8) -> (done: Result<(), UxnError>)
        requires
            old(self).wf(),
        ensures
            final(self).wf(),
            (final(self)@, done) == spec_deo(old(self)@, addr, byte),
    {
        self.io[addr as usize] = byte;
        if addr < CONSOLE_SLOT {
            self.system.notify_deo(self.io.as_slice(), self.main.as_slice(), addr, byte)
        } else if addr < SCREEN_SLOT {
            self.console.notify_deo(self.io.as_slice(), self.main.as_slice(), addr, byte)
        } else if addr < UNUSED_SLOTS {
            self.screen.notify_deo(self.io.as_slice(), self.main.as_slice(), addr, byte)
        } else {
            Err(UxnError::UnknownPort)
        }
    }

    /// Writes a short to a port and the port after it: into the I/O page, and
    /// on to the device.
    pub fn deo2(&mut self, addr: u8, short: u16) -> (done: Result<(), UxnError>)
        requires
            old(self).wf(),
        ensures
            final(self).wf(),
            (final(self)@, done) == spec_deo2(old(self)@, addr, short),
    {
        if port_of(addr) == 0x0f {
            return Err(UxnError::CrossDeviceShortWrite);
        }
        let (high, low) = crate::tal::split_short(short);
        self.io[addr as usize] = high;
        self.io[addr as usize + 1] = low;
        if addr < CONSOLE_SLOT {
            self.system.notify_deo2(self.io.as_slice(), self.main.as_slice(), addr, short)
        } else if addr < SCREEN_SLOT {
            self.console.notify_deo2(self.io.as_slice(), self.main.as_slice(), addr, short)
        } else if addr < UNUSED_SLOTS {
            self.screen.notify_deo2(self.io.as_slice(), self.main.as_slice(), addr, short)
        } else {
            Err(UxnError::UnknownPort)
        }
    }

    /// Reads a byte from a port: what the I/O page holds there.
    pub fn dei(&self, addr: u8) -> (byte: u8)
        ensures
            byte == self@.io[addr as int],
    {
        self.io[addr as usize]
    }

    /// Reads a short from a port and the port after it, which is port 0 after
    /// port 0xff: what the I/O page holds there, high byte first.
    pub fn dei2(&self, addr: u8) -> (short: u16)
        ensures
            short == short_of(self@.io[addr as int], self@.io[addr.wrapping_add(1) as int]),
    {
        crate::tal::join_bytes(self.io[addr as usize], self.io[addr.wrapping_add(1) as usize])
    }

    /// The screen as colors: for each pixel, the color that the palette has
    /// for it, as 0x00RRGGBB.
    pub fn rgb_buffer(&self) -> (rgb: Vec<u32>)
        requires
            self.wf(),
        ensures
            rgb@.len() == PIXELS,
            forall|i: int|
                0 <= i < PIXELS ==> rgb@[i] == self@.palette[self@.screen.buffer[i] as int],
    {
        let pixels = self.screen.buffer();
        let mut rgb: Vec<u32> = Vec::new();
        let mut i: usize = 0;
        while i < PIXELS
            invariant
                i <= PIXELS,
                rgb@.len() == i,
                pixels@ == self@.screen.buffer,
                screen_wf(self.screen@),
                forall|j: int|
                    0 <= j < i ==> rgb@[j] == self@.palette[self@.screen.buffer[j] as int],
            decreases PIXELS - i,
        {
            rgb.push(self.system.index_to_0rgb(pixels[i]).unwrap());
            i = i + 1;
        }
        rgb
    }
}

impl Default for Varvara {
    fn default() -> (bus: Varvara)
        ensures
            bus.wf(),
    {
        Varvara::new()
    }
}

/// A read gives what was last written: after a byte was written to a port,
/// the I/O page holds that byte there, whatever the device made of the write,
/// and even where the write was reported as failed.
pub proof fn lemma_read_after_write(bus: BusState, addr: u8, byte: u8)
    requires
        bus.io.len() == IO_SIZE,
    ensures
        spec_deo(bus, addr, byte).0.io[addr as int] == byte,
        spec_deo(bus, addr, byte).0.io.len() == IO_SIZE,
        spec_deo(bus, addr, byte).0.main == bus.main,
{
}

/// A read gives what was last written: after a short was written to a port,
/// unless the write was refused for reaching into the next slot, the I/O
/// page holds that short there, high byte first, whatever the device made of
/// the write.
pub proof fn lemma_read_after_write_short(bus: BusState, addr: u8, short: u16)
    requires
        bus.io.len() == IO_SIZE,
        spec_port(addr) != 0x0f,
    ensures
        spec_read_short(spec_deo2(bus, addr, short).0.io, addr) == Some(short),
        spec_deo2(bus, addr, short).0.main == bus.main,
{
}

} // verus!
