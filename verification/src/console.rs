//! The console device: bytes written to its output port are queued for
//! whoever drives the machine to print.

use crate::error::UxnError;
use crate::varvara::{port_of, spec_port, Device};
use vstd::prelude::*;

verus! {

/// The console's port for one byte of output.
pub const CONSOLE_WRITE_PORT: u8 = 0x8;

/// The console. It prints nothing itself: it holds the bytes written to it,
/// in order, until they are taken.
pub struct Console {
    out: Vec<u8>,
}

impl View for Console {
    type V = Seq<u8>;

    /// The bytes written and not yet taken.
    closed spec fn view(&self) -> Seq<u8> {
        self.out@
    }
}

/// What a byte written to a console port does to the pending output.
pub open spec fn spec_console_deo(pending: Seq<u8>, addr: u8, byte: u8) -> Result<
    Seq<u8>,
    UxnError,
> {
    if spec_port(addr) == CONSOLE_WRITE_PORT {
        Ok(pending.push(byte))
    } else {
        Err(UxnError::UnknownPort)
    }
}

impl Console {
    /// A console with nothing pending.
    pub fn new() -> (console: Console)
        ensures
            console@ == Seq::<u8>::empty(),
    {
        Console { out: Vec::new() }
    }

    /// Queues one byte of output.
    pub fn write(&mut self, byte: u8)
        ensures
            final(self)@ == old(self)@.push(byte),
    {
        self.out.push(byte);
    }

    /// Takes the pending output, and leaves none.
    pub fn take_output(&mut self) -> (bytes: Vec<u8>)
        ensures
            bytes@ == old(self)@,
            final(self)@ == Seq::<u8>::empty(),
    {
        let mut taken: Vec<u8> = Vec::new();
        std::mem::swap(&mut self.out, &mut taken);
        taken
    }
}

impl Default for Console {
    fn default() -> (console: Console)
        ensures
            console@ == Seq::<u8>::empty(),
    {
        Console::new()
    }
}

impl Device for Console {
    /// Every console is valid.
    open spec fn wf(&self) -> bool {
        true
    }

    /// A byte for the output port is queued. The console has no other port.
    fn notify_deo(&mut self, io: &[u8], main: &[u8], port: u8, value: u8) -> (done: Result<
        (),
        UxnError,
    >)
        ensures
            match spec_console_deo(old(self)@, port, value) {
                Ok(pending) => done == Ok::<(), UxnError>(()) && final(self)@ == pending,
                Err(e) => done == Err::<(), UxnError>(e) && final(self)@ == old(self)@,
            },
    {
        if port_of(port) == CONSOLE_WRITE_PORT {
            self.write(value);
            Ok(())
        } else {
            Err(UxnError::UnknownPort)
        }
    }

    /// The console takes no short.
    fn notify_deo2(&mut self, io: &[u8], main: &[u8], port: u8, value: u16) -> (done: Result<
        (),
        UxnError,
    >)
        ensures
            done == Err::<(), UxnError>(UxnError::UnknownPort),
            final(self)@ == old(self)@,
    {
        Err(UxnError::UnknownPort)
    }
}

} // verus!
