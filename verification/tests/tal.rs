use uxn::error::UxnError;
use uxn::parse::{parse, ROMItem, Stream};
use uxn::tal::{apply_macros, assemble, resolve_locations};

fn label(text: &str) -> Vec<u8> {
    text.as_bytes().to_vec()
}

#[test]
fn macros() {
    let in_macro = " #0008 ";
    let stream = Stream::new(in_macro.as_bytes());

    let out_macro: Vec<ROMItem> = parse(stream).unwrap();
    let parsed: Vec<ROMItem> = vec![
        ROMItem::MacroDef(label("INIT-X"), out_macro),
        ROMItem::Macro(label("INIT-X")),
    ];

    let macros_applied = apply_macros(&parsed).unwrap();

    assert_eq!(
        macros_applied,
        vec![
            ROMItem::Byte(0xa0),
            ROMItem::Byte(0x00),
            ROMItem::Byte(0x08)
        ]
    );
}

#[test]
fn read_one_location() {
    let items = vec![ROMItem::Byte(0x00), ROMItem::Location(label("test"))];
    let locations = resolve_locations(&items).unwrap();
    assert_eq!(locations.len(), 1);
    assert_eq!(locations.get("test".as_bytes(), None), Some(0x0101));
}

#[test]
fn replace_location() {
    let items = vec![
        ROMItem::Addr(label("arrow")),
        ROMItem::Byte(0x00),
        ROMItem::Location(label("arrow")),
        ROMItem::Byte(0xff),
    ];

    let mut mem: [u8; 0x10000] = [0; 0x10000];
    let trimmed_mem = uxn::tal::write(&items, &mut mem).unwrap();

    let desired = vec![0xa0, 0x01, 0x04, 0x00, 0xff];
    assert_eq!(trimmed_mem, desired);
}

#[test]
fn pad_location_label() {
    // |4001 @label |0100 ;label
    let items = vec![
        ROMItem::AbsPad(0x40, 0x01),
        ROMItem::Location(label("label")),
        ROMItem::AbsPad(0x01, 0x00),
        ROMItem::Addr(label("label")),
    ];

    let mut mem: [u8; 0x10000] = [0; 0x10000];
    let trimmed_mem = uxn::tal::write(&items, &mut mem).unwrap();

    let desired = vec![0xa0, 0x40, 0x01];
    assert_eq!(trimmed_mem, desired);
}

#[test]
fn pad_location_write() {
    // |0102 @label ;label
    let items = vec![
        ROMItem::AbsPad(0x01, 0x02),
        ROMItem::Location(label("label")),
        ROMItem::Addr(label("label")),
    ];

    let mut mem: [u8; 0x10000] = [0; 0x10000];
    let trimmed_mem = uxn::tal::write(&items, &mut mem).unwrap();

    let desired = vec![0x00, 0x00, 0xa0, 0x01, 0x02];
    assert_eq!(trimmed_mem, desired);
}

#[test]
#[should_panic]
fn no_zero_page_write() {
    // |00 10
    let items = vec![ROMItem::AbsPad(0x00, 0x00), ROMItem::Byte(10)];

    let mut mem: [u8; 0x10000] = [0; 0x10000];
    let _trimmed_mem = uxn::tal::write(&items, &mut mem).unwrap();
}

#[test]
fn tal_rel_pad() {
    // |0102 $02 @label ;label
    let items = vec![
        ROMItem::AbsPad(0x01, 0x02),
        ROMItem::RelPad(0x00, 0x02),
        ROMItem::Location(label("label")),
        ROMItem::Addr(label("label")),
    ];

    let mut mem: [u8; 0x10000] = [0; 0x10000];
    let trimmed_mem = uxn::tal::write(&items, &mut mem).unwrap();

    let desired = vec![0x00, 0x00, 0x00, 0x00, 0xa0, 0x01, 0x04];
    assert_eq!(trimmed_mem, desired);
}

#[test]
fn sub_label() {
    // |00 @label $2 &a
    // |0100 ;label/a
    let items = vec![
        ROMItem::AbsPad(0x00, 0x00),
        ROMItem::Location(label("label")),
        ROMItem::RelPad(0x00, 0x02),
        ROMItem::SubLocation(None, label("a")),
        ROMItem::AbsPad(0x01, 0x00),
        ROMItem::SubAddr(label("label"), label("a")),
    ];

    let mut mem: [u8; 0x10000] = [0; 0x10000];
    let trimmed_mem = uxn::tal::write(&items, &mut mem).unwrap();

    let desired = vec![0xa0, 0x00, 0x02];
    assert_eq!(trimmed_mem, desired);
}

#[test]
fn zero_page_addr() {
    // |10 @label
    // |0100 .label
    let items = vec![
        ROMItem::AbsPad(0x00, 0x10),
        ROMItem::Location(label("label")),
        ROMItem::AbsPad(0x01, 0x00),
        ROMItem::ZeroAddr(label("label")),
    ];

    let mut mem: [u8; 0x10000] = [0; 0x10000];
    let trimmed_mem = uxn::tal::write(&items, &mut mem).unwrap();

    let desired = vec![0x80, 0x10];
    assert_eq!(trimmed_mem, desired);
}

#[test]
fn zero_page_write_is_reported() {
    let items = vec![ROMItem::AbsPad(0x00, 0x00), ROMItem::Byte(10)];
    let mut mem: [u8; 0x10000] = [0; 0x10000];
    assert_eq!(
        uxn::tal::write(&items, &mut mem),
        Err(UxnError::ZeroPageWriteViolation)
    );
    assert_eq!(
        assemble("|0000 10".as_bytes()),
        Err(UxnError::ZeroPageWriteViolation)
    );
}

#[test]
fn assembles_bytes_with_and_without_separators() {
    assert_eq!(assemble("a0 ff 80".as_bytes()), Ok(vec![0xa0, 0xff, 0x80]));
    assert_eq!(assemble("a0ff80".as_bytes()), Ok(vec![0xa0, 0xff, 0x80]));
}

#[test]
fn forward_reference_resolves() {
    assert_eq!(
        assemble(";arrow 00 @arrow ff".as_bytes()),
        Ok(vec![0xa0, 0x01, 0x04, 0x00, 0xff])
    );
}

#[test]
fn pads_move_the_cursor_before_a_label() {
    assert_eq!(
        assemble("|0102 $02 @label ;label".as_bytes()),
        Ok(vec![0x00, 0x00, 0x00, 0x00, 0xa0, 0x01, 0x04])
    );
}

#[test]
fn assembles_a_program_with_a_macro() {
    assert_eq!(
        assemble("%EMIT { #18 DEO } #41 EMIT BRK".as_bytes()),
        Ok(vec![0x80, 0x41, 0x80, 0x18, 0x17, 0x00])
    );
}

#[test]
fn empty_program_is_one_zero_byte() {
    assert_eq!(assemble("".as_bytes()), Ok(vec![0x00]));
    assert_eq!(assemble("( nothing )".as_bytes()), Ok(vec![0x00]));
}

#[test]
fn undefined_label_is_reported() {
    assert_eq!(
        assemble(";nowhere".as_bytes()),
        Err(UxnError::UndefinedLabel)
    );
    assert_eq!(
        assemble("@here ;here/there".as_bytes()),
        Err(UxnError::UndefinedLabel)
    );
}

#[test]
fn undefined_macro_is_reported() {
    let items = vec![ROMItem::Macro(label("NOPE"))];
    assert_eq!(apply_macros(&items), Err(UxnError::UndefinedMacro));
}

#[test]
fn later_macro_definition_wins() {
    let items = vec![
        ROMItem::MacroDef(label("M"), vec![ROMItem::Byte(1)]),
        ROMItem::MacroDef(label("M"), vec![ROMItem::Byte(2)]),
        ROMItem::Macro(label("M")),
    ];
    assert_eq!(apply_macros(&items), Ok(vec![ROMItem::Byte(2)]));
}

#[test]
fn macro_body_is_copied_without_expansion() {
    let items = vec![
        ROMItem::MacroDef(label("A"), vec![ROMItem::Macro(label("B"))]),
        ROMItem::MacroDef(label("B"), vec![ROMItem::Byte(7)]),
        ROMItem::Macro(label("A")),
    ];
    let expanded = apply_macros(&items).unwrap();
    assert_eq!(expanded, vec![ROMItem::Macro(label("B"))]);
    assert_eq!(
        resolve_locations(&expanded).err(),
        Some(UxnError::UnexpandedMacro)
    );
    let mut mem: [u8; 0x10000] = [0; 0x10000];
    assert_eq!(uxn::tal::write(&expanded, &mut mem), Err(UxnError::UnexpandedMacro));
}

#[test]
fn sub_label_needs_a_parent() {
    let items = vec![ROMItem::SubLocation(None, label("a"))];
    assert_eq!(
        resolve_locations(&items).err(),
        Some(UxnError::SubLabelWithoutParent)
    );
}

#[test]
fn zero_page_reference_needs_a_zero_page_address() {
    assert_eq!(
        assemble("@label .label".as_bytes()),
        Err(UxnError::AddressOutsideZeroPage)
    );
}

#[test]
fn later_label_definition_wins() {
    let items = vec![
        ROMItem::Location(label("x")),
        ROMItem::Byte(0),
        ROMItem::Location(label("x")),
    ];
    let locations = resolve_locations(&items).unwrap();
    assert_eq!(locations.len(), 1);
    assert_eq!(locations.get("x".as_bytes(), None), Some(0x0101));
    assert_eq!(locations.get("y".as_bytes(), None), None);
    assert_eq!(locations.get("x".as_bytes(), Some("y".as_bytes())), None);
}

#[test]
fn reference_at_the_end_of_memory_would_wrap_into_the_zero_page() {
    let items = vec![
        ROMItem::Location(label("x")),
        ROMItem::AbsPad(0xff, 0xfe),
        ROMItem::Addr(label("x")),
    ];
    let mut mem: [u8; 0x10000] = [0; 0x10000];
    assert_eq!(
        uxn::tal::write(&items, &mut mem),
        Err(UxnError::ZeroPageWriteViolation)
    );
    let items = vec![ROMItem::AbsPad(0xff, 0xff), ROMItem::Byte(9)];
    let image = uxn::tal::write(&items, &mut mem).unwrap();
    assert_eq!(image.len(), 0xff00);
    assert_eq!(image[0xfeff], 9);
}

#[test]
fn failed_write_keeps_what_was_stored_before() {
    let items = vec![ROMItem::Byte(5), ROMItem::Addr(label("missing"))];
    let mut mem: [u8; 0x10000] = [0; 0x10000];
    assert_eq!(uxn::tal::write(&items, &mut mem), Err(UxnError::UndefinedLabel));
    assert_eq!(mem[0x0100], 5);
    assert_eq!(mem[0x0101], 0);
}
