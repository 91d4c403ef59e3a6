//! The instruction encoding: one byte holds a base operation in its low five
//! bits and three flags in its high three.

use crate::error::UxnError;
use vstd::prelude::*;

verus! {

/// Mask of the base operation in an instruction byte.
pub const BASE_MASK: u8 = 0x1f;

/// The short-mode flag: operate on shorts instead of bytes.
pub const SHORT_FLAG: u8 = 0x20;

/// The return flag.
pub const RETURN_FLAG: u8 = 0x40;

/// The keep flag. Alone on the base operation 0 it makes the immediate load.
pub const KEEP_FLAG: u8 = 0x80;

/// The immediate load of a byte.
pub const LIT: u8 = 0x80;

/// The immediate load of a short.
pub const LIT2: u8 = 0xa0;

/// The flags of an instruction other than the immediate load.
#[derive(Clone, Copy, Debug, PartialEq, Eq, Structural)]
pub struct CodeFlags {
    pub keep: bool,
    pub ret: bool,
    pub short: bool,
}

/// The flags of the immediate load, whose keep flag is always set.
#[derive(Clone, Copy, Debug, PartialEq, Eq, Structural)]
pub struct LitFlags {
    pub ret: bool,
    pub short: bool,
}

/// A decoded instruction.
#[derive(Clone, Copy, Debug, PartialEq, Eq, Structural)]
pub enum Code {
    BRK,
    INC(CodeFlags),
    DEO(CodeFlags),
    DEI(CodeFlags),
    ADD(CodeFlags),
    SUB(CodeFlags),
    LIT(LitFlags),
}

/// The mnemonic `BRK`.
pub open spec fn mnemonic_brk() -> Seq<u8> {
    seq![0x42u8, 0x52u8, 0x4bu8]
}

/// The mnemonic `INC`.
pub open spec fn mnemonic_inc() -> Seq<u8> {
    seq![0x49u8, 0x4eu8, 0x43u8]
}

/// The mnemonic `DEO`.
pub open spec fn mnemonic_deo() -> Seq<u8> {
    seq![0x44u8, 0x45u8, 0x4fu8]
}

/// The mnemonic `DEI`.
pub open spec fn mnemonic_dei() -> Seq<u8> {
    seq![0x44u8, 0x45u8, 0x49u8]
}

/// The mnemonic `ADD`.
pub open spec fn mnemonic_add() -> Seq<u8> {
    seq![0x41u8, 0x44u8, 0x44u8]
}

/// The mnemonic `SUB`.
pub open spec fn mnemonic_sub() -> Seq<u8> {
    seq![0x53u8, 0x55u8, 0x42u8]
}

/// The mnemonic `LIT`.
pub open spec fn mnemonic_lit() -> Seq<u8> {
    seq![0x4cu8, 0x49u8, 0x54u8]
}

/// The byte of a base operation, by its mnemonic; `None` for any other text.
pub open spec fn spec_encode_base_code(code: Seq<u8>) -> Option<u8> {
    if code == mnemonic_brk() {
        Some(0x00u8)
    } else if code == mnemonic_inc() {
        Some(0x01u8)
    } else if code == mnemonic_dei() {
        Some(0x16u8)
    } else if code == mnemonic_deo() {
        Some(0x17u8)
    } else if code == mnemonic_add() {
        Some(0x18u8)
    } else if code == mnemonic_sub() {
        Some(0x19u8)
    } else if code == mnemonic_lit() {
        Some(LIT)
    } else {
        None
    }
}

/// The byte of a base operation, by its mnemonic.
///
/// The immediate load comes with its keep flag set. Text that is no mnemonic
/// is an unknown opcode.
pub fn encode_base_code(code: &[u8]) -> (byte: Result<u8, UxnError>)
    ensures
        byte == match spec_encode_base_code(code@) {
            Some(b) => Ok::<u8, UxnError>(b),
            None => Err::<u8, UxnError>(UxnError::UnknownOpcode),
        },
{
    if code.len() != 3 {
        return Err(UxnError::UnknownOpcode);
    }
    let a = code[0];
    let b = code[1];
    let c = code[2];
    assert(code@ =~= seq![a, b, c]);
    if a == 0x42 && b == 0x52 && c == 0x4b {
        // BRK
        Ok(0x00)
    } else if a == 0x49 && b == 0x4e && c == 0x43 {
        // INC
        Ok(0x01)
    } else if a == 0x44 && b == 0x45 && c == 0x49 {
        // DEI
        Ok(0x16)
    } else if a == 0x44 && b == 0x45 && c == 0x4f {
        // DEO
        Ok(0x17)
    } else if a == 0x41 && b == 0x44 && c == 0x44 {
        // ADD
        Ok(0x18)
    } else if a == 0x53 && b == 0x55 && c == 0x42 {
        // SUB
        Ok(0x19)
    } else if a == 0x4c && b == 0x49 && c == 0x54 {
        // LIT
        Ok(LIT)
    } else {
        Err(UxnError::UnknownOpcode)
    }
}

/// The flag bits of an instruction byte: the sum of 0x20 for the short flag,
/// 0x40 for the return flag and 0x80 for the keep flag.
pub open spec fn spec_flag_bits(short: bool, keep: bool, ret: bool) -> u8 {
    ((if short {
        SHORT_FLAG as int
    } else {
        0
    }) + (if ret {
        RETURN_FLAG as int
    } else {
        0
    }) + (if keep {
        KEEP_FLAG as int
    } else {
        0
    })) as u8
}

/// The flag bits share no bit, so joining them adds them.
proof fn lemma_flags_add(s: u8, k: u8, r: u8)
    by (bit_vector)
    requires
        s == 0 || s == 0x20,
        k == 0 || k == 0x80,
        r == 0 || r == 0x40,
    ensures
        s | k | r == s + r + k,
{
}

/// The flag bits of an instruction byte.
pub fn flag_bits(short: bool, keep: bool, ret: bool) -> (bits: u8)
    ensures
        bits == spec_flag_bits(short, keep, ret),
{
    let s: u8 = if short {
        SHORT_FLAG
    } else {
        0
    };
    let k: u8 = if keep {
        KEEP_FLAG
    } else {
        0
    };
    let r: u8 = if ret {
        RETURN_FLAG
    } else {
        0
    };
    proof {
        lemma_flags_add(s, k, r);
    }
    s | k | r
}

/// The base operation of an instruction byte: its low five bits.
pub open spec fn base_of(byte: u8) -> u8 {
    (byte % 0x20) as u8
}

/// Whether the short flag of an instruction byte is set: its bit 5.
pub open spec fn has_short(byte: u8) -> bool {
    (byte / 0x20) % 2 == 1
}

/// Whether the return flag of an instruction byte is set: its bit 6.
pub open spec fn has_return(byte: u8) -> bool {
    (byte / 0x40) % 2 == 1
}

/// Whether the keep flag of an instruction byte is set: its bit 7.
pub open spec fn has_keep(byte: u8) -> bool {
    byte >= 0x80
}

/// What an instruction byte decodes to.
///
/// The return flag is not implemented, nor is the keep flag on any base
/// operation but 0, where it makes the immediate load instead of the halt.
/// Both are checked before the base operation is looked up, so a byte with
/// such a flag and an unknown base operation is an unimplemented feature.
pub open spec fn spec_parse_code(byte: u8) -> Result<Code, UxnError> {
    let base = base_of(byte);
    let short = has_short(byte);
    let ret = has_return(byte);
    let keep = has_keep(byte);
    let flags = CodeFlags { keep, ret, short };
    if ret {
        Err(UxnError::UnimplementedFeature)
    } else if keep && base != 0x00 {
        Err(UxnError::UnimplementedFeature)
    } else if base == 0x00 {
        if keep {
            Ok(Code::LIT(LitFlags { ret, short }))
        } else {
            Ok(Code::BRK)
        }
    } else if base == 0x01 {
        Ok(Code::INC(flags))
    } else if base == 0x16 {
        Ok(Code::DEI(flags))
    } else if base == 0x17 {
        Ok(Code::DEO(flags))
    } else if base == 0x18 {
        Ok(Code::ADD(flags))
    } else if base == 0x19 {
        Ok(Code::SUB(flags))
    } else {
        Err(UxnError::UnknownOpcode)
    }
}

/// Masking an instruction byte picks its fields.
proof fn lemma_fields(byte: u8)
    by (bit_vector)
    ensures
        byte & 0x1f == byte % 0x20,
        (byte & 0x20 != 0) == ((byte / 0x20) % 2 == 1),
        (byte & 0x40 != 0) == ((byte / 0x40) % 2 == 1),
        (byte & 0x80 != 0) == (byte >= 0x80),
{
}

/// Decodes one instruction byte.
pub fn parse_code(byte: u8) -> (code: Result<Code, UxnError>)
    ensures
        code == spec_parse_code(byte),
{
    proof {
        lemma_fields(byte);
    }
    let base = byte & BASE_MASK;
    let short = byte & SHORT_FLAG != 0;
    let ret = byte & RETURN_FLAG != 0;
    if ret {
        return Err(UxnError::UnimplementedFeature);
    }
    let keep = byte & KEEP_FLAG != 0;
    if keep && base != 0x00 {
        return Err(UxnError::UnimplementedFeature);
    }
    let flags = CodeFlags { keep, ret, short };
    if base == 0x00 {
        if keep {
            Ok(Code::LIT(LitFlags { ret, short }))
        } else {
            Ok(Code::BRK)
        }
    } else if base == 0x01 {
        Ok(Code::INC(flags))
    } else if base == 0x16 {
        Ok(Code::DEI(flags))
    } else if base == 0x17 {
        Ok(Code::DEO(flags))
    } else if base == 0x18 {
        Ok(Code::ADD(flags))
    } else if base == 0x19 {
        Ok(Code::SUB(flags))
    } else {
        Err(UxnError::UnknownOpcode)
    }
}

/// The instruction byte that the assembler writes for a mnemonic with flag
/// letters after it: the byte of the base operation plus the flag bits.
///
/// The keep flag is refused on every mnemonic: the immediate load holds it
/// already, and no other operation supports it.
pub open spec fn spec_encode(code: Seq<u8>, short: bool, keep: bool, ret: bool) -> Option<u8> {
    match spec_encode_base_code(code) {
        Some(base) => if keep {
            None
        } else {
            Some((base + spec_flag_bits(short, keep, ret)) as u8)
        },
        None => None,
    }
}

/// The instruction that a mnemonic and its flags stand for, where the decoder
/// supports it: no keep flag, no return flag, and no flag at all on the halt.
pub open spec fn spec_instruction(code: Seq<u8>, short: bool, keep: bool, ret: bool) -> Option<
    Code,
> {
    let flags = CodeFlags { keep, ret, short };
    if keep || ret {
        None
    } else if code == mnemonic_brk() {
        if short {
            None
        } else {
            Some(Code::BRK)
        }
    } else if code == mnemonic_inc() {
        Some(Code::INC(flags))
    } else if code == mnemonic_dei() {
        Some(Code::DEI(flags))
    } else if code == mnemonic_deo() {
        Some(Code::DEO(flags))
    } else if code == mnemonic_add() {
        Some(Code::ADD(flags))
    } else if code == mnemonic_sub() {
        Some(Code::SUB(flags))
    } else if code == mnemonic_lit() {
        Some(Code::LIT(LitFlags { ret, short }))
    } else {
        None
    }
}

/// The byte of a base operation and flag bits without the keep flag share
/// no bit, so joining them adds them.
pub proof fn lemma_join_adds(base: u8, bits: u8)
    by (bit_vector)
    requires
        base == 0x00 || base == 0x01 || base == 0x16 || base == 0x17 || base == 0x18 || base
            == 0x19 || base == 0x80,
        bits == 0x00 || bits == 0x20 || bits == 0x40 || bits == 0x60,
    ensures
        base | bits == base + bits,
{
}

/// Encoding round trip: where a mnemonic with its flags stands for an
/// instruction that the decoder supports, the assembler has a byte for it,
/// and that byte decodes to the same base operation with the same flags.
pub proof fn lemma_encode_decode_round_trip(code: Seq<u8>, short: bool, keep: bool, ret: bool)
    requires
        spec_instruction(code, short, keep, ret) is Some,
    ensures
        spec_encode(code, short, keep, ret) matches Some(byte) && spec_parse_code(byte) == Ok::<
            Code,
            UxnError,
        >(spec_instruction(code, short, keep, ret)->Some_0),
{
}

} // verus!
