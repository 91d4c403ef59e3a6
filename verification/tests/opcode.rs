use uxn::error::UxnError;
use uxn::opcode::{encode_base_code, flag_bits, parse_code, Code, CodeFlags, LitFlags};
use uxn::parse::{parse_opcode, ROMItem, Stream};

fn flags(short: bool) -> CodeFlags {
    CodeFlags {
        keep: false,
        ret: false,
        short,
    }
}

fn assembled(text: &str) -> u8 {
    let mut stream = Stream::new(text.as_bytes());
    match parse_opcode(&mut stream).unwrap().as_slice() {
        [ROMItem::Byte(b)] => *b,
        other => panic!("not one byte: {:?}", other),
    }
}

#[test]
fn base_codes() {
    assert_eq!(encode_base_code("BRK".as_bytes()), Ok(0x00));
    assert_eq!(encode_base_code("INC".as_bytes()), Ok(0x01));
    assert_eq!(encode_base_code("DEI".as_bytes()), Ok(0x16));
    assert_eq!(encode_base_code("DEO".as_bytes()), Ok(0x17));
    assert_eq!(encode_base_code("ADD".as_bytes()), Ok(0x18));
    assert_eq!(encode_base_code("SUB".as_bytes()), Ok(0x19));
    assert_eq!(encode_base_code("LIT".as_bytes()), Ok(0x80));
}

#[test]
fn unknown_mnemonic() {
    assert_eq!(
        encode_base_code("MUL".as_bytes()),
        Err(UxnError::UnknownOpcode)
    );
    assert_eq!(
        encode_base_code("AD".as_bytes()),
        Err(UxnError::UnknownOpcode)
    );
    assert_eq!(
        encode_base_code("ADD2".as_bytes()),
        Err(UxnError::UnknownOpcode)
    );
}

#[test]
fn flag_bits_of_each_flag() {
    assert_eq!(flag_bits(false, false, false), 0x00);
    assert_eq!(flag_bits(true, false, false), 0x20);
    assert_eq!(flag_bits(false, true, false), 0x80);
    assert_eq!(flag_bits(false, false, true), 0x40);
    assert_eq!(flag_bits(true, true, true), 0xe0);
}

#[test]
fn decodes_each_instruction() {
    assert_eq!(parse_code(0x00), Ok(Code::BRK));
    assert_eq!(parse_code(0x01), Ok(Code::INC(flags(false))));
    assert_eq!(parse_code(0x21), Ok(Code::INC(flags(true))));
    assert_eq!(parse_code(0x16), Ok(Code::DEI(flags(false))));
    assert_eq!(parse_code(0x37), Ok(Code::DEO(flags(true))));
    assert_eq!(parse_code(0x18), Ok(Code::ADD(flags(false))));
    assert_eq!(parse_code(0x39), Ok(Code::SUB(flags(true))));
    assert_eq!(
        parse_code(0x80),
        Ok(Code::LIT(LitFlags {
            ret: false,
            short: false
        }))
    );
    assert_eq!(
        parse_code(0xa0),
        Ok(Code::LIT(LitFlags {
            ret: false,
            short: true
        }))
    );
}

#[test]
fn short_flag_on_the_halt_is_dropped() {
    assert_eq!(parse_code(0x20), Ok(Code::BRK));
}

#[test]
fn return_flag_is_not_implemented() {
    assert_eq!(parse_code(0x40), Err(UxnError::UnimplementedFeature));
    assert_eq!(parse_code(0x58), Err(UxnError::UnimplementedFeature));
    assert_eq!(parse_code(0xc0), Err(UxnError::UnimplementedFeature));
    assert_eq!(parse_code(0x42), Err(UxnError::UnimplementedFeature));
}

#[test]
fn keep_flag_is_only_for_the_immediate_load() {
    assert_eq!(parse_code(0x98), Err(UxnError::UnimplementedFeature));
    assert_eq!(parse_code(0x81), Err(UxnError::UnimplementedFeature));
    assert_eq!(parse_code(0x82), Err(UxnError::UnimplementedFeature));
}

#[test]
fn unknown_base_operation() {
    assert_eq!(parse_code(0x02), Err(UxnError::UnknownOpcode));
    assert_eq!(parse_code(0x1f), Err(UxnError::UnknownOpcode));
    assert_eq!(parse_code(0x3a), Err(UxnError::UnknownOpcode));
}

#[test]
fn encoding_round_trip() {
    assert_eq!(parse_code(assembled("BRK")), Ok(Code::BRK));
    for short in [false, true] {
        let suffix = if short { "2" } else { "" };
        assert_eq!(
            parse_code(assembled(&format!("INC{}", suffix))),
            Ok(Code::INC(flags(short)))
        );
        assert_eq!(
            parse_code(assembled(&format!("DEO{}", suffix))),
            Ok(Code::DEO(flags(short)))
        );
        assert_eq!(
            parse_code(assembled(&format!("DEI{}", suffix))),
            Ok(Code::DEI(flags(short)))
        );
        assert_eq!(
            parse_code(assembled(&format!("ADD{}", suffix))),
            Ok(Code::ADD(flags(short)))
        );
        assert_eq!(
            parse_code(assembled(&format!("SUB{}", suffix))),
            Ok(Code::SUB(flags(short)))
        );
        assert_eq!(
            parse_code(assembled(&format!("LIT{}", suffix))),
            Ok(Code::LIT(LitFlags { ret: false, short }))
        );
    }
}
