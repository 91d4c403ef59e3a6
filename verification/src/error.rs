//! The error kinds shared by the assembler, the CPU and the device bus.

use vstd::prelude::*;

verus! {

/// Every way an assembly run or an execution run can end early.
///
/// All of them are fatal for the operation that reports them: no partial
/// output is valid once one has been returned.
#[derive(Clone, Copy, Debug, PartialEq, Eq, Structural)]
pub enum UxnError {
    /// A pop was attempted on a stack that holds too few bytes.
    StackUnderflow,
    /// A push was attempted on a stack that has no room for it.
    StackOverflow,
    /// The low five bits of an instruction byte name no base operation, or a
    /// text is no mnemonic.
    UnknownOpcode,
    /// The return flag is set, or the keep flag is set on an operation other
    /// than the immediate load, or a device port was written whose function
    /// is reserved.
    UnimplementedFeature,
    /// The port has no device, or its device does not recognize it.
    UnknownPort,
    /// The two bytes of a short write would land in two device slots.
    CrossDeviceShortWrite,
    /// No token alternative matches at `position`, or input is left over from
    /// `position` on.
    SyntaxError { position: usize },
    /// A macro invocation names a macro that was never defined.
    UndefinedMacro,
    /// An address reference names a label that was never defined.
    UndefinedLabel,
    /// The emitter was asked to write below address 0x0100.
    ZeroPageWriteViolation,
    /// A macro definition or invocation is still present when addresses are
    /// resolved.
    UnexpandedMacro,
    /// A sub-label is defined before any label that could be its parent.
    SubLabelWithoutParent,
    /// A zero-page address reference resolves to an address above 0x00ff.
    AddressOutsideZeroPage,
    /// A device was asked to read or write outside a buffer.
    OutOfBounds,
}

} // verus!
