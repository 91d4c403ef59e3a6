use uxn::error::UxnError;
use uxn::parse::{
    calculate_base_opcode, hex_digit_to_u8, parse, parse_base_opcode, parse_comment,
    parse_hexbyte, parse_hexshort, parse_many_hexbytes, parse_opcode, parse_opcode_flags,
    take_whitespace1, ROMItem, Stream,
};

fn name(text: &str) -> Vec<u8> {
    text.as_bytes().to_vec()
}

#[test]
fn hexbyte() {
    let input = "fd .System/r";
    let mut stream = Stream::new(input.as_bytes());

    let output = parse_hexbyte(&mut stream).unwrap();

    assert_eq!(output, ROMItem::Byte(0xfd));

    assert!(parse_hexbyte(&mut stream).is_err());
}

#[test]
fn hexshort() {
    let input = "4cfd .System/r";
    let mut stream = Stream::new(input.as_bytes());

    let output = parse_hexshort(&mut stream).unwrap();

    assert_eq!(output, (ROMItem::Byte(0x4c), ROMItem::Byte(0xfd)));
}

#[test]
fn single_digit_isnt_hexbyte() {
    let input = "d .System/r";
    let mut stream = Stream::new(input.as_bytes());

    let output = parse_hexbyte(&mut stream);

    assert!(output.is_err());
}

#[test]
fn parses_opcode() {
    let input = "SUB2 ;on-frame";
    let mut stream = Stream::new(input.as_bytes());

    let output = parse_opcode(&mut stream).unwrap();

    assert_eq!(output, vec!(ROMItem::Byte(0x39)));
}

#[test]
fn parses_flags() {
    let input = "2k ;on-frame";
    let mut stream = Stream::new(input.as_bytes());

    let output = parse_opcode_flags(&mut stream);

    assert_eq!(output, (true, true, false));
}

#[test]
fn parses_base_opcode_byte() {
    let input = "INC ;on-frame";
    let mut stream = Stream::new(input.as_bytes());

    let output = calculate_base_opcode(&mut stream).unwrap();

    assert_eq!(output, 0x01);
}

#[test]
fn fails_on_opcode_then_nonsense() {
    let input = "SUB2abc ";
    let stream = Stream::new(input.as_bytes());

    let output = parse(stream);

    assert!(output.is_err());
}

#[test]
fn parses_base_opcode() {
    let input = "SUB2 ;on-frame";
    let mut stream = Stream::new(input.as_bytes());

    let output = parse_base_opcode(&mut stream).unwrap();

    assert_eq!(output, "SUB".as_bytes());
}

#[test]
fn errs_on_litk() {
    let input = "LITk 1234";
    let mut stream = Stream::new(input.as_bytes());

    let output = parse_opcode(&mut stream);
    assert!(output.is_err());
}

#[test]
fn comment() {
    let input = "( Comment ) SUB2 INC";
    let mut stream = Stream::new(input.as_bytes());

    let output_1 = parse_comment(&mut stream).unwrap();
    let _ = take_whitespace1(&mut stream);
    let output_2 = parse_opcode(&mut stream).unwrap();

    assert_eq!(output_1, vec![]);
    assert_eq!(output_2, vec![ROMItem::Byte(0x39)]);
}

#[test]
fn parses_bytes_only_space_delimited() {
    let input = "a0 ff 80";
    let stream = Stream::new(input.as_bytes());

    let output = parse(stream).unwrap();
    assert_eq!(
        output,
        vec!(
            ROMItem::Byte(0xa0),
            ROMItem::Byte(0xff),
            ROMItem::Byte(0x80)
        )
    );
}

#[test]
fn parse_unseparated_bytes() {
    let input = "a0ff80";
    let mut stream = Stream::new(input.as_bytes());

    let output = parse_many_hexbytes(&mut stream).unwrap();

    assert!(stream.is_eof());
    assert_eq!(
        output,
        vec!(
            ROMItem::Byte(0xa0),
            ROMItem::Byte(0xff),
            ROMItem::Byte(0x80)
        )
    );
}

#[test]
fn parses_bytes() {
    let input = "a0 ff80";
    let stream = Stream::new(input.as_bytes());

    let output = parse(stream).unwrap();
    assert_eq!(
        output,
        vec!(
            ROMItem::Byte(0xa0),
            ROMItem::Byte(0xff),
            ROMItem::Byte(0x80)
        )
    );
}

#[test]
fn parses_bytes_and_opcodes() {
    let input = "a0 BRK ff80 LIT";
    let stream = Stream::new(input.as_bytes());

    let output = parse(stream).unwrap();
    assert_eq!(
        output,
        vec!(
            ROMItem::Byte(0xa0),
            ROMItem::Byte(0x00),
            ROMItem::Byte(0xff),
            ROMItem::Byte(0x80),
            ROMItem::Byte(0x80)
        )
    );
}

#[test]
fn ignores_comment() {
    let input = "a0 BRK (test comment!) ff80 LIT";
    let stream = Stream::new(input.as_bytes());

    let output = parse(stream).unwrap();

    assert_eq!(
        output,
        vec!(
            ROMItem::Byte(0xa0),
            ROMItem::Byte(0x00),
            ROMItem::Byte(0xff),
            ROMItem::Byte(0x80),
            ROMItem::Byte(0x80)
        )
    );
}

#[test]
fn errs_when_opcode_has_no_whitespace_before() {
    let input = "a0BRK ff80 LIT";
    let stream = Stream::new(input.as_bytes());

    let output = parse(stream);

    assert!(output.is_err());
}

#[test]
fn errs_when_opcode_has_no_whitespace_after() {
    let input = "a0 BRKff80 LIT";
    let stream = Stream::new(input.as_bytes());

    let output = parse(stream);

    assert!(output.is_err());
}

#[test]
fn lit_rune() {
    let input = "#10";
    let stream = Stream::new(input.as_bytes());

    let output = parse(stream).unwrap();

    assert_eq!(output, vec!(ROMItem::Byte(0x80), ROMItem::Byte(0x10)));
}

#[test]
fn parses_multiline() {
    let input = "#2ce9 #08 DEO2\n";
    let stream = Stream::new(input.as_bytes());

    let output = parse(stream);

    assert!(output.is_ok());
}

#[test]
fn label_rune() {
    let input = "@test ";
    let stream = Stream::new(input.as_bytes());

    let output_rune = parse(stream).unwrap();

    assert_eq!(output_rune, vec![ROMItem::Location(name("test"))]);
}

#[test]
fn absolute_addr_rune() {
    let input = ";test ";
    let stream = Stream::new(input.as_bytes());

    let output_rune = parse(stream).unwrap();

    assert_eq!(output_rune, vec![ROMItem::Addr(name("test"))]);
}

#[test]
fn basic_macro() {
    let input = "%EMIT { #00 }";
    let stream = Stream::new(input.as_bytes());

    let output_rune = parse(stream).unwrap();
    assert_eq!(
        output_rune,
        vec![ROMItem::MacroDef(
            name("EMIT"),
            vec![ROMItem::Byte(0x80), ROMItem::Byte(0x00)]
        )]
    );
}

#[test]
fn call_macro() {
    let input = "%TEST { #00 } TEST";
    let stream = Stream::new(input.as_bytes());

    let output = parse(stream).unwrap();

    assert_eq!(
        output,
        vec![
            ROMItem::MacroDef(
                name("TEST"),
                vec![ROMItem::Byte(0x80), ROMItem::Byte(0x00)]
            ),
            ROMItem::Macro(name("TEST"))
        ]
    );
}

#[test]
fn abs_pad_byte() {
    let input = "|70";
    let stream = Stream::new(input.as_bytes());

    let output = parse(stream).unwrap();

    assert_eq!(output, vec![ROMItem::AbsPad(00, 0x70)]);
}

#[test]
fn abs_pad_short() {
    let input = "|1970";
    let stream = Stream::new(input.as_bytes());

    let output = parse(stream).unwrap();

    assert_eq!(output, vec![ROMItem::AbsPad(0x19, 0x70)]);
}

#[test]
fn parse_rel_pad() {
    let input = "$19";
    let stream = Stream::new(input.as_bytes());

    let output = parse(stream).unwrap();

    assert_eq!(output, vec![ROMItem::RelPad(0x00, 0x19)]);
}

#[test]
fn rel_pad_nibble() {
    let input = "$2";
    let stream = Stream::new(input.as_bytes());

    let output = parse(stream).unwrap();

    assert_eq!(output, vec![ROMItem::RelPad(0x00, 0x02)]);
}

#[test]
fn syntax_error_carries_the_position_of_the_leftover() {
    let output = parse(Stream::new("SUB2abc ".as_bytes()));
    assert_eq!(output, Err(UxnError::SyntaxError { position: 4 }));

    let output = parse(Stream::new("a0 zz".as_bytes()));
    assert_eq!(output, Err(UxnError::SyntaxError { position: 3 }));
}

#[test]
fn unclosed_comment_is_a_syntax_error() {
    let output = parse(Stream::new("a0 ( never closed".as_bytes()));
    assert_eq!(output, Err(UxnError::SyntaxError { position: 3 }));
}

#[test]
fn brackets_and_tabs_separate_tokens() {
    let output = parse(Stream::new("[ a0\tff ]\n80".as_bytes())).unwrap();
    assert_eq!(
        output,
        vec![ROMItem::Byte(0xa0), ROMItem::Byte(0xff), ROMItem::Byte(0x80)]
    );
}

#[test]
fn short_literal_is_tried_before_byte_literal() {
    let output = parse(Stream::new("#2ce9 #08".as_bytes())).unwrap();
    assert_eq!(
        output,
        vec![
            ROMItem::Byte(0xa0),
            ROMItem::Byte(0x2c),
            ROMItem::Byte(0xe9),
            ROMItem::Byte(0x80),
            ROMItem::Byte(0x08)
        ]
    );
}

#[test]
fn sublabel_and_address_forms() {
    let output = parse(Stream::new("@Screen &x .Screen/x ;Screen/x .Screen".as_bytes())).unwrap();
    assert_eq!(
        output,
        vec![
            ROMItem::Location(name("Screen")),
            ROMItem::SubLocation(None, name("x")),
            ROMItem::ZeroSubAddr(name("Screen"), name("x")),
            ROMItem::SubAddr(name("Screen"), name("x")),
            ROMItem::ZeroAddr(name("Screen")),
        ]
    );
}

#[test]
fn macro_name_may_touch_its_brace() {
    let output = parse(Stream::new("%EMIT{ #00 } EMIT".as_bytes())).unwrap();
    assert_eq!(
        output,
        vec![
            ROMItem::MacroDef(
                name("EMIT"),
                vec![ROMItem::Byte(0x80), ROMItem::Byte(0x00)]
            ),
            ROMItem::Macro(name("EMIT"))
        ]
    );
}

#[test]
fn macro_must_be_defined_before_it_is_called() {
    let output = parse(Stream::new("TEST %TEST { #00 }".as_bytes()));
    assert_eq!(output, Err(UxnError::SyntaxError { position: 0 }));
}

#[test]
fn flags_in_order_and_keep_refused() {
    assert_eq!(
        parse(Stream::new("ADD2 DEO2r INC".as_bytes())).unwrap(),
        vec![ROMItem::Byte(0x38), ROMItem::Byte(0x77), ROMItem::Byte(0x01)]
    );
    assert!(parse(Stream::new("ADDk".as_bytes())).is_err());
    assert!(parse(Stream::new("ADDr2".as_bytes())).is_err());
}

#[test]
fn hex_digits_are_lower_case() {
    assert_eq!(hex_digit_to_u8(b'0'), Some(0));
    assert_eq!(hex_digit_to_u8(b'9'), Some(9));
    assert_eq!(hex_digit_to_u8(b'a'), Some(10));
    assert_eq!(hex_digit_to_u8(b'f'), Some(15));
    assert_eq!(hex_digit_to_u8(b'A'), None);
    assert_eq!(hex_digit_to_u8(b'g'), None);
    assert!(parse(Stream::new("A0".as_bytes())).is_err());
}

#[test]
fn failed_parser_leaves_the_position() {
    let mut stream = Stream::new("a".as_bytes());
    assert_eq!(
        parse_hexbyte(&mut stream),
        Err(UxnError::SyntaxError { position: 0 })
    );
    assert_eq!(stream.pos, 0);
}
