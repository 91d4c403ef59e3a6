//! The source parser: from assembly text to a sequence of typed items.

use crate::error::UxnError;
use crate::opcode::{
    encode_base_code, flag_bits, lemma_join_adds, spec_encode, spec_encode_base_code,
    spec_flag_bits, KEEP_FLAG, LIT, LIT2,
};
use vstd::prelude::*;

verus! {

/// One item of the assembler's intermediate representation. Names are byte
/// strings.
#[derive(Debug, PartialEq, Eq)]
pub enum ROMItem {
    /// A literal byte.
    Byte(u8),
    /// The definition of a label.
    Location(Vec<u8>),
    /// The definition of a sub-label, by its own name. Its parent is the label
    /// defined last before it, whatever the first field holds.
    SubLocation(Option<Vec<u8>>, Vec<u8>),
    /// A reference to a label by its full address: three bytes.
    Addr(Vec<u8>),
    /// A reference to a sub-label, by parent and child, by its full address:
    /// three bytes.
    SubAddr(Vec<u8>, Vec<u8>),
    /// A reference to a label in the zero page: two bytes.
    ZeroAddr(Vec<u8>),
    /// A reference to a sub-label in the zero page, by parent and child: two
    /// bytes.
    ZeroSubAddr(Vec<u8>, Vec<u8>),
    /// The definition of a macro: its name and its body.
    MacroDef(Vec<u8>, Vec<ROMItem>),
    /// The invocation of a macro, by its name.
    Macro(Vec<u8>),
    /// An absolute pad: the write cursor is set to this address, given as
    /// high and low byte.
    AbsPad(u8, u8),
    /// A relative pad: the write cursor moves on by this distance, given as
    /// high and low byte.
    RelPad(u8, u8),
}

/// The mathematical value of a [`ROMItem`]: names are byte sequences.
pub enum Item {
    Byte(u8),
    Location(Seq<u8>),
    SubLocation(Option<Seq<u8>>, Seq<u8>),
    Addr(Seq<u8>),
    SubAddr(Seq<u8>, Seq<u8>),
    ZeroAddr(Seq<u8>),
    ZeroSubAddr(Seq<u8>, Seq<u8>),
    MacroDef(Seq<u8>, Seq<Item>),
    Macro(Seq<u8>),
    AbsPad(u8, u8),
    RelPad(u8, u8),
}

/// The mathematical value of an item: the same item with the value of each
/// name, and of each item in the body of a macro.
pub open spec fn item_view(item: ROMItem) -> Item
    decreases item,
{
    match item {
        ROMItem::Byte(b) => Item::Byte(b),
        ROMItem::Location(n) => Item::Location(n@),
        ROMItem::SubLocation(p, c) => Item::SubLocation(opt_name_view(p), c@),
        ROMItem::Addr(n) => Item::Addr(n@),
        ROMItem::SubAddr(p, c) => Item::SubAddr(p@, c@),
        ROMItem::ZeroAddr(n) => Item::ZeroAddr(n@),
        ROMItem::ZeroSubAddr(p, c) => Item::ZeroSubAddr(p@, c@),
        ROMItem::MacroDef(n, body) => Item::MacroDef(
            n@,
            Seq::new(
                body@.len(),
                |i: int|
                    if 0 <= i < body@.len() {
                        item_view(body@[i])
                    } else {
                        Item::Byte(0)
                    },
            ),
        ),
        ROMItem::Macro(n) => Item::Macro(n@),
        ROMItem::AbsPad(a, b) => Item::AbsPad(a, b),
        ROMItem::RelPad(a, b) => Item::RelPad(a, b),
    }
}

/// The mathematical value of a run of items.
pub open spec fn items_view(items: Seq<ROMItem>) -> Seq<Item> {
    Seq::new(items.len(), |i: int| item_view(items[i]))
}

/// The mathematical value of an optional name.
pub open spec fn opt_name_view(name: Option<Vec<u8>>) -> Option<Seq<u8>> {
    match name {
        Some(n) => Some(n@),
        None => None,
    }
}

/// A macro definition's value holds the value of its body.
pub proof fn lemma_macro_def_view(name: Vec<u8>, body: Vec<ROMItem>)
    ensures
        item_view(ROMItem::MacroDef(name, body)) == Item::MacroDef(name@, items_view(body@)),
{
    let inner = item_view(ROMItem::MacroDef(name, body))->MacroDef_1;
    assert(inner =~= items_view(body@));
}

impl View for ROMItem {
    type V = Item;

    open spec fn view(&self) -> Item {
        item_view(*self)
    }
}

/// Whether two byte strings are the same.
pub fn bytes_eq(a: &[u8], b: &[u8]) -> (same: bool)
    ensures
        same == (a@ == b@),
{
    if a.len() != b.len() {
        return false;
    }
    let mut i: usize = 0;
    while i < a.len()
        invariant
            a.len() == b.len(),
            i <= a.len(),
            forall|j: int| 0 <= j < i ==> a@[j] == b@[j],
        decreases a.len() - i,
    {
        if a[i] != b[i] {
            return false;
        }
        i = i + 1;
    }
    assert(a@ =~= b@);
    true
}

/// A copy of a name.
pub fn clone_name(name: &Vec<u8>) -> (copy: Vec<u8>)
    ensures
        copy@ == name@,
{
    name.clone()
}

/// A copy of an item, with the same value.
pub fn clone_item(item: &ROMItem) -> (copy: ROMItem)
    ensures
        copy@ == item@,
    decreases item,
{
    match item {
        ROMItem::Byte(b) => ROMItem::Byte(*b),
        ROMItem::Location(n) => ROMItem::Location(clone_name(n)),
        ROMItem::SubLocation(p, c) => {
            let parent = match p {
                Some(p) => Some(clone_name(p)),
                None => None,
            };
            ROMItem::SubLocation(parent, clone_name(c))
        },
        ROMItem::Addr(n) => ROMItem::Addr(clone_name(n)),
        ROMItem::SubAddr(p, c) => ROMItem::SubAddr(clone_name(p), clone_name(c)),
        ROMItem::ZeroAddr(n) => ROMItem::ZeroAddr(clone_name(n)),
        ROMItem::ZeroSubAddr(p, c) => ROMItem::ZeroSubAddr(clone_name(p), clone_name(c)),
        ROMItem::MacroDef(n, body) => {
            let name = clone_name(n);
            let copy = clone_items(body);
            proof {
                lemma_macro_def_view(*n, *body);
                lemma_macro_def_view(name, copy);
            }
            ROMItem::MacroDef(name, copy)
        },
        ROMItem::Macro(n) => ROMItem::Macro(clone_name(n)),
        ROMItem::AbsPad(a, b) => ROMItem::AbsPad(*a, *b),
        ROMItem::RelPad(a, b) => ROMItem::RelPad(*a, *b),
    }
}

/// A copy of a run of items, with the same value.
pub fn clone_items(items: &Vec<ROMItem>) -> (copy: Vec<ROMItem>)
    ensures
        items_view(copy@) == items_view(items@),
    decreases items,
{
    let mut copy: Vec<ROMItem> = Vec::new();
    let mut i: usize = 0;
    while i < items.len()
        invariant
            i <= items.len(),
            copy@.len() == i,
            forall|j: int| 0 <= j < i ==> item_view(copy@[j]) == item_view(items@[j]),
        decreases items.len() - i,
    {
        copy.push(clone_item(&items[i]));
        i = i + 1;
    }
    copy
}

impl Clone for ROMItem {
    fn clone(&self) -> (copy: Self)
        ensures
            copy@ == self@,
    {
        clone_item(self)
    }
}

/// One macro of the table.
struct MacroEntry {
    name: Vec<u8>,
    body: Vec<ROMItem>,
}

/// The macro table: the body of each macro defined so far, by name.
///
/// Defining a name again replaces its body.
pub struct State {
    entries: Vec<MacroEntry>,
}

/// The map that a list of macros stands for: a later definition of a name
/// replaces an earlier one.
spec fn macros_of(entries: Seq<MacroEntry>) -> Map<Seq<u8>, Seq<Item>>
    decreases entries.len(),
{
    if entries.len() == 0 {
        Map::empty()
    } else {
        macros_of(entries.drop_last()).insert(
            entries.last().name@,
            items_view(entries.last().body@),
        )
    }
}

impl View for State {
    type V = Map<Seq<u8>, Seq<Item>>;

    closed spec fn view(&self) -> Map<Seq<u8>, Seq<Item>> {
        macros_of(self.entries@)
    }
}

impl State {
    /// A table with no macro in it.
    pub fn new() -> (state: State)
        ensures
            state@ == Map::<Seq<u8>, Seq<Item>>::empty(),
    {
        State { entries: Vec::new() }
    }

    /// Defines the macro `name` with the body `content`.
    pub fn define(&mut self, name: Vec<u8>, content: Vec<ROMItem>)
        ensures
            final(self)@ == old(self)@.insert(name@, items_view(content@)),
    {
        self.entries.push(MacroEntry { name, body: content });
        assert(self.entries@.drop_last() =~= old(self).entries@);
    }

    /// The body of the macro `name`, if it is defined.
    pub fn get(&self, name: &[u8]) -> (body: Option<&Vec<ROMItem>>)
        ensures
            match body {
                Some(b) => self@.contains_key(name@) && items_view(b@) == self@[name@],
                None => !self@.contains_key(name@),
            },
    {
        let mut i: usize = self.entries.len();
        assert(self.entries@.take(i as int) =~= self.entries@);
        while i > 0
            invariant
                i <= self.entries.len(),
                self@.contains_key(name@) <==> macros_of(
                    self.entries@.take(i as int),
                ).contains_key(name@),
                self@.contains_key(name@) ==> self@[name@] == macros_of(
                    self.entries@.take(i as int),
                )[name@],
            decreases i,
        {
            i = i - 1;
            assert(self.entries@.take(i + 1).drop_last() =~= self.entries@.take(i as int));
            let entry = &self.entries[i];
            if bytes_eq(entry.name.as_slice(), name) {
                return Some(&entry.body);
            }
        }
        None
    }

    /// Whether the macro `name` is defined.
    pub fn contains(&self, name: &[u8]) -> (defined: bool)
        ensures
            defined == self@.contains_key(name@),
    {
        self.get(name).is_some()
    }
}

/// The byte of a space.
pub const SPACE: u8 = 0x20;

/// The byte of a tab.
pub const TAB: u8 = 0x09;

/// The byte of a line end.
pub const LINE_END: u8 = 0x0a;

/// The byte of `[`.
pub const OPEN_BRACKET: u8 = 0x5b;

/// The byte of `]`.
pub const CLOSE_BRACKET: u8 = 0x5d;

/// The byte of `(`, which opens a comment.
pub const OPEN_PAREN: u8 = 0x28;

/// The byte of `)`, which closes a comment.
pub const CLOSE_PAREN: u8 = 0x29;

/// The byte of `{`, which opens the body of a macro.
pub const OPEN_BRACE: u8 = 0x7b;

/// The byte of `}`, which closes the body of a macro.
pub const CLOSE_BRACE: u8 = 0x7d;

/// The byte of `/`, which stands between a label and its sub-label.
pub const SLASH: u8 = 0x2f;

/// The byte of `%`, the sigil of a macro definition.
pub const MACRO_SIGIL: u8 = 0x25;

/// The byte of `|`, the sigil of an absolute pad.
pub const ABS_PAD_SIGIL: u8 = 0x7c;

/// The byte of `$`, the sigil of a relative pad.
pub const REL_PAD_SIGIL: u8 = 0x24;

/// The byte of `@`, the sigil of a label.
pub const LABEL_SIGIL: u8 = 0x40;

/// The byte of `&`, the sigil of a sub-label.
pub const SUBLABEL_SIGIL: u8 = 0x26;

/// The byte of `#`, the sigil of an immediate literal.
pub const LIT_SIGIL: u8 = 0x23;

/// The byte of `.`, the sigil of a zero-page address.
pub const ZERO_ADDR_SIGIL: u8 = 0x2e;

/// The byte of `;`, the sigil of an absolute address.
pub const ABS_ADDR_SIGIL: u8 = 0x3b;

/// The byte of `0`, the lowest decimal digit.
pub const DIGIT_0: u8 = 0x30;

/// The byte of `9`, the highest decimal digit.
pub const DIGIT_9: u8 = 0x39;

/// The byte of `a`, the lowest hexadecimal letter.
pub const LETTER_A: u8 = 0x61;

/// The byte of `f`, the highest hexadecimal letter.
pub const LETTER_F: u8 = 0x66;

/// The byte of `2`, the letter of the short flag.
pub const SHORT_LETTER: u8 = 0x32;

/// The byte of `k`, the letter of the keep flag.
pub const KEEP_LETTER: u8 = 0x6b;

/// The byte of `r`, the letter of the return flag.
pub const RETURN_LETTER: u8 = 0x72;

/// The input of a parse with a position in it, and the macros defined so far.
///
/// A parser that succeeds moves the position past what it took. One that
/// fails leaves the position where it was.
pub struct Stream<'a> {
    pub input: &'a [u8],
    pub pos: usize,
    pub state: State,
}

impl<'a> Stream<'a> {
    /// The position lies within the input, or at its end.
    pub open spec fn wf(&self) -> bool {
        self.pos <= self.input@.len()
    }

    /// Same input and same macros as `before`, at position `pos`.
    pub open spec fn moved(&self, before: &Stream<'a>, pos: int) -> bool {
        &&& self.input == before.input
        &&& self.state == before.state
        &&& self.pos == pos
    }

    /// A stream at the start of `input`, with no macro defined.
    pub fn new(input: &'a [u8]) -> (stream: Stream<'a>)
        ensures
            stream.input == input,
            stream.pos == 0,
            stream.state@ == Map::<Seq<u8>, Seq<Item>>::empty(),
            stream.wf(),
    {
        Stream { input, pos: 0, state: State::new() }
    }

    /// Whether the whole input has been taken.
    pub fn is_eof(&self) -> (eof: bool)
        requires
            self.wf(),
        ensures
            eof == (self.pos == self.input@.len()),
    {
        self.pos >= self.input.len()
    }
}

/// A syntax error at `position`.
pub open spec fn syntax_error<T>(position: usize) -> Result<T, UxnError> {
    Err(UxnError::SyntaxError { position })
}

/// Horizontal space, or a line end: what ends a name.
pub open spec fn is_name_end(b: u8) -> bool {
    b == SPACE || b == TAB || b == LINE_END
}

/// What separates tokens: space, tab, line end, and the two square brackets,
/// which are decoration.
pub open spec fn is_whitespace(b: u8) -> bool {
    is_name_end(b) || b == OPEN_BRACKET || b == CLOSE_BRACKET
}

/// The digit value of a lower-case hexadecimal digit.
pub open spec fn spec_hex_digit(b: u8) -> Option<u8> {
    if DIGIT_0 <= b <= DIGIT_9 {
        Some((b - DIGIT_0) as u8)
    } else if LETTER_A <= b <= LETTER_F {
        Some((b - LETTER_A + 10) as u8)
    } else {
        None
    }
}

/// The first position from `i` on that holds no whitespace, or the end.
pub open spec fn skip_whitespace(s: Seq<u8>, i: int) -> int
    decreases s.len() - i,
{
    if 0 <= i < s.len() && is_whitespace(s[i]) {
        skip_whitespace(s, i + 1)
    } else {
        i
    }
}

/// The first position from `i` on that holds a byte that ends a name, or the
/// end.
pub open spec fn name_end(s: Seq<u8>, i: int) -> int
    decreases s.len() - i,
{
    if 0 <= i < s.len() && !is_name_end(s[i]) {
        name_end(s, i + 1)
    } else {
        i
    }
}

/// The first position from `i` on that holds the byte `b`, or the end.
pub open spec fn index_of(s: Seq<u8>, i: int, b: u8) -> int
    decreases s.len() - i,
{
    if 0 <= i < s.len() && s[i] != b {
        index_of(s, i + 1, b)
    } else {
        i
    }
}

/// Where a scan from `i` stops lies between `i` and the end.
pub proof fn lemma_scan_bounds(s: Seq<u8>, i: int, b: u8)
    requires
        0 <= i <= s.len(),
    ensures
        i <= skip_whitespace(s, i) <= s.len(),
        i <= name_end(s, i) <= s.len(),
        i <= index_of(s, i, b) <= s.len(),
    decreases s.len() - i,
{
    if i < s.len() {
        lemma_scan_bounds(s, i + 1, b);
    }
}

/// The digit value of a lower-case hexadecimal digit, if `input` is one.
pub fn hex_digit_to_u8(input: u8) -> (digit: Option<u8>)
    ensures
        digit == spec_hex_digit(input),
{
    if DIGIT_0 <= input && input <= DIGIT_9 {
        Some(input - DIGIT_0)
    } else if LETTER_A <= input && input <= LETTER_F {
        Some(input - LETTER_A + 10)
    } else {
        None
    }
}

/// Takes whitespace, as much as there is; none is fine.
pub fn take_whitespace0<'a>(stream: &mut Stream<'a>) -> (taken: &'a [u8])
    requires
        old(stream).wf(),
    ensures
        final(stream).wf(),
        final(stream).moved(old(stream), skip_whitespace(old(stream).input@, old(stream).pos as int)),
        final(stream).pos >= old(stream).pos,
        taken@ == old(stream).input@.subrange(old(stream).pos as int, final(stream).pos as int),
{
    let input = stream.input;
    let start = stream.pos;
    let mut i: usize = start;
    while i < input.len() && is_whitespace_byte(input[i])
        invariant
            start <= i <= input@.len(),
            skip_whitespace(input@, start as int) == skip_whitespace(input@, i as int),
        decreases input@.len() - i,
    {
        i = i + 1;
    }
    stream.pos = i;
    vstd::slice::slice_subrange(input, start, i)
}

/// Takes whitespace, as much as there is; fails where there is none.
pub fn take_whitespace1<'a>(stream: &mut Stream<'a>) -> (taken: Result<&'a [u8], UxnError>)
    requires
        old(stream).wf(),
    ensures
        final(stream).wf(),
        final(stream).moved(old(stream), skip_whitespace(old(stream).input@, old(stream).pos as int)),
        final(stream).pos == old(stream).pos ==> taken == syntax_error::<&[u8]>(old(stream).pos),
        final(stream).pos != old(stream).pos ==> taken is Ok && taken->Ok_0@ == old(stream).input@.subrange(old(stream).pos as int, final(stream).pos as int),
{
    let start = stream.pos;
    let taken = take_whitespace0(stream);
    if stream.pos == start {
        Err(UxnError::SyntaxError { position: start })
    } else {
        Ok(taken)
    }
}

/// Whether a byte separates tokens.
pub fn is_whitespace_byte(b: u8) -> (yes: bool)
    ensures
        yes == is_whitespace(b),
{
    b == SPACE || b == TAB || b == LINE_END || b == OPEN_BRACKET || b == CLOSE_BRACKET
}

/// The name at `i`: the bytes up to the next one that ends a name. A name has
/// at least one byte.
pub open spec fn spec_take_label(s: Seq<u8>, i: int) -> Option<(Seq<u8>, int)> {
    let end = name_end(s, i);
    if end > i {
        Some((s.subrange(i, end), end))
    } else {
        None
    }
}

/// Takes a name: everything up to the next space, tab or line end.
pub fn take_label<'a>(stream: &mut Stream<'a>) -> (label: Result<&'a [u8], UxnError>)
    requires
        old(stream).wf(),
    ensures
        final(stream).wf(),
        match spec_take_label(old(stream).input@, old(stream).pos as int) {
            Some((name, end)) => label is Ok && label->Ok_0@ == name && final(stream).moved(
                old(stream),
                end,
            ),
            None => label == syntax_error::<&[u8]>(old(stream).pos) && final(stream).moved(
                old(stream),
                old(stream).pos as int,
            ),
        },
{
    let input = stream.input;
    let start = stream.pos;
    let mut i: usize = start;
    while i < input.len() && !(input[i] == SPACE || input[i] == TAB || input[i] == LINE_END)
        invariant
            start <= i <= input@.len(),
            name_end(input@, start as int) == name_end(input@, i as int),
        decreases input@.len() - i,
    {
        i = i + 1;
    }
    if i == start {
        return Err(UxnError::SyntaxError { position: start });
    }
    stream.pos = i;
    Ok(vstd::slice::slice_subrange(input, start, i))
}

/// The digit at `i`, if one hexadecimal digit stands there.
pub open spec fn spec_nibble(s: Seq<u8>, i: int) -> Option<u8> {
    if 0 <= i < s.len() {
        spec_hex_digit(s[i])
    } else {
        None
    }
}

/// The byte at `i`, if two hexadecimal digits stand there.
pub open spec fn spec_hexbyte(s: Seq<u8>, i: int) -> Option<u8> {
    match (spec_nibble(s, i), spec_nibble(s, i + 1)) {
        (Some(high), Some(low)) => Some((high * 16 + low) as u8),
        _ => None,
    }
}

/// The two bytes at `i`, if four hexadecimal digits stand there.
pub open spec fn spec_hexshort(s: Seq<u8>, i: int) -> Option<(u8, u8)> {
    match (spec_hexbyte(s, i), spec_hexbyte(s, i + 2)) {
        (Some(high), Some(low)) => Some((high, low)),
        _ => None,
    }
}

/// Takes one hexadecimal digit.
pub fn parse_nibble(stream: &mut Stream) -> (digit: Result<u8, UxnError>)
    requires
        old(stream).wf(),
    ensures
        final(stream).wf(),
        match spec_nibble(old(stream).input@, old(stream).pos as int) {
            Some(d) => digit == Ok::<u8, UxnError>(d) && final(stream).moved(
                old(stream),
                old(stream).pos + 1,
            ),
            None => digit == syntax_error::<u8>(old(stream).pos) && final(stream).moved(
                old(stream),
                old(stream).pos as int,
            ),
        },
{
    let start = stream.pos;
    if start < stream.input.len() {
        match hex_digit_to_u8(stream.input[start]) {
            Some(d) => {
                stream.pos = start + 1;
                return Ok(d);
            },
            None => {},
        }
    }
    Err(UxnError::SyntaxError { position: start })
}

/// Takes two hexadecimal digits, and gives their value.
fn hexbyte(stream: &mut Stream) -> (byte: Result<u8, UxnError>)
    requires
        old(stream).wf(),
    ensures
        final(stream).wf(),
        match spec_hexbyte(old(stream).input@, old(stream).pos as int) {
            Some(b) => byte == Ok::<u8, UxnError>(b) && final(stream).moved(
                old(stream),
                old(stream).pos + 2,
            ),
            None => byte == syntax_error::<u8>(old(stream).pos) && final(stream).moved(
                old(stream),
                old(stream).pos as int,
            ),
        },
{
    let start = stream.pos;
    let high = match parse_nibble(stream) {
        Ok(d) => d,
        Err(e) => {
            return Err(e);
        },
    };
    let low = match parse_nibble(stream) {
        Ok(d) => d,
        Err(_) => {
            stream.pos = start;
            return Err(UxnError::SyntaxError { position: start });
        },
    };
    Ok(high * 16 + low)
}

/// Takes four hexadecimal digits, and gives the values of the two pairs.
fn hexshort(stream: &mut Stream) -> (bytes: Result<(u8, u8), UxnError>)
    requires
        old(stream).wf(),
    ensures
        final(stream).wf(),
        match spec_hexshort(old(stream).input@, old(stream).pos as int) {
            Some(found) => bytes == Ok::<(u8, u8), UxnError>(found) && final(stream).moved(
                old(stream),
                old(stream).pos + 4,
            ),
            None => bytes == syntax_error::<(u8, u8)>(old(stream).pos) && final(stream).moved(
                old(stream),
                old(stream).pos as int,
            ),
        },
{
    let start = stream.pos;
    let high = match hexbyte(stream) {
        Ok(b) => b,
        Err(e) => {
            return Err(e);
        },
    };
    let low = match hexbyte(stream) {
        Ok(b) => b,
        Err(_) => {
            stream.pos = start;
            return Err(UxnError::SyntaxError { position: start });
        },
    };
    Ok((high, low))
}

/// Takes two hexadecimal digits: one literal byte.
pub fn parse_hexbyte(stream: &mut Stream) -> (item: Result<ROMItem, UxnError>)
    requires
        old(stream).wf(),
    ensures
        final(stream).wf(),
        match spec_hexbyte(old(stream).input@, old(stream).pos as int) {
            Some(b) => item == Ok::<ROMItem, UxnError>(ROMItem::Byte(b)) && final(stream).moved(
                old(stream),
                old(stream).pos + 2,
            ),
            None => item == syntax_error::<ROMItem>(old(stream).pos) && final(stream).moved(
                old(stream),
                old(stream).pos as int,
            ),
        },
{
    match hexbyte(stream) {
        Ok(b) => Ok(ROMItem::Byte(b)),
        Err(e) => Err(e),
    }
}

/// Takes four hexadecimal digits: two literal bytes, high byte first.
pub fn parse_hexshort(stream: &mut Stream) -> (items: Result<(ROMItem, ROMItem), UxnError>)
    requires
        old(stream).wf(),
    ensures
        final(stream).wf(),
        match spec_hexshort(old(stream).input@, old(stream).pos as int) {
            Some((high, low)) => items == Ok::<(ROMItem, ROMItem), UxnError>(
                (ROMItem::Byte(high), ROMItem::Byte(low)),
            ) && final(stream).moved(old(stream), old(stream).pos + 4),
            None => items == syntax_error::<(ROMItem, ROMItem)>(old(stream).pos) && final(stream).moved(old(stream), old(stream).pos as int),
        },
{
    match hexshort(stream) {
        Ok((high, low)) => Ok((ROMItem::Byte(high), ROMItem::Byte(low))),
        Err(e) => Err(e),
    }
}

/// The literal bytes from `i` on, two digits each, after those in `taken`;
/// and where they end.
pub open spec fn spec_hexbytes_from(s: Seq<u8>, i: int, taken: Seq<Item>) -> (Seq<Item>, int)
    decreases s.len() - i,
{
    match spec_hexbyte(s, i) {
        Some(b) => spec_hexbytes_from(s, i + 2, taken.push(Item::Byte(b))),
        None => (taken, i),
    }
}

/// A run of literal bytes at `i`: an even number of hexadecimal digits, two at
/// least.
pub open spec fn spec_many_hexbytes(s: Seq<u8>, i: int) -> Option<(Seq<Item>, int)> {
    let (items, end) = spec_hexbytes_from(s, i, Seq::empty());
    if items.len() > 0 {
        Some((items, end))
    } else {
        None
    }
}

/// A run of literal bytes keeps what was taken before it, and ends within the
/// input.
pub proof fn lemma_hexbytes_from(s: Seq<u8>, i: int, taken: Seq<Item>)
    requires
        0 <= i <= s.len(),
    ensures
        spec_hexbytes_from(s, i, taken).0.len() >= taken.len(),
        i <= spec_hexbytes_from(s, i, taken).1 <= s.len(),
        spec_hexbytes_from(s, i, taken).0.len() > taken.len() ==> spec_hexbytes_from(
            s,
            i,
            taken,
        ).1 > i,
        spec_hexbytes_from(s, i, taken).0.len() == taken.len() ==> spec_hexbytes_from(
            s,
            i,
            taken,
        ).1 == i,
    decreases s.len() - i,
{
    if spec_hexbyte(s, i) is Some {
        lemma_hexbytes_from(s, i + 2, taken.push(Item::Byte(spec_hexbyte(s, i)->Some_0)));
    }
}

/// Takes a run of literal bytes: pairs of hexadecimal digits with nothing
/// between them, one pair at least.
pub fn parse_many_hexbytes(stream: &mut Stream) -> (items: Result<Vec<ROMItem>, UxnError>)
    requires
        old(stream).wf(),
    ensures
        final(stream).wf(),
        match spec_many_hexbytes(old(stream).input@, old(stream).pos as int) {
            Some((bytes, end)) => items is Ok && items_view(items->Ok_0@) == bytes && final(stream).moved(old(stream), end) && end > old(stream).pos,
            None => items == syntax_error::<Vec<ROMItem>>(old(stream).pos) && final(stream).moved(
                old(stream),
                old(stream).pos as int,
            ),
        },
{
    let start = stream.pos;
    let mut out: Vec<ROMItem> = Vec::new();
    assert(items_view(out@) =~= Seq::<Item>::empty());
    loop
        invariant
            stream.wf(),
            stream.moved(old(stream), stream.pos as int),
            start == old(stream).pos,
            start <= stream.pos,
            spec_hexbytes_from(stream.input@, start as int, Seq::empty()) == spec_hexbytes_from(
                stream.input@,
                stream.pos as int,
                items_view(out@),
            ),
        ensures
            stream.wf(),
            stream.moved(old(stream), stream.pos as int),
            spec_hexbytes_from(stream.input@, start as int, Seq::empty()) == (
                items_view(out@),
                stream.pos as int,
            ),
        decreases stream.input@.len() - stream.pos,
    {
        match parse_hexbyte(stream) {
            Ok(item) => {
                let ghost before = out@;
                out.push(item);
                assert(items_view(out@) =~= items_view(before).push(item_view(item)));
            },
            Err(_) => {
                break ;
            },
        }
    }
    proof {
        lemma_hexbytes_from(old(stream).input@, start as int, Seq::empty());
    }
    if out.len() == 0 {
        return Err(UxnError::SyntaxError { position: start });
    }
    Ok(out)
}

/// A comment at `i`: an opening parenthesis, and everything up to the first
/// closing one. Gives the position after it.
pub open spec fn spec_comment(s: Seq<u8>, i: int) -> Option<int> {
    if 0 <= i < s.len() && s[i] == OPEN_PAREN && index_of(s, i + 1, CLOSE_PAREN) < s.len() {
        Some(index_of(s, i + 1, CLOSE_PAREN) + 1)
    } else {
        None
    }
}

/// Takes a comment, which stands for no item. A comment that is not closed is
/// an error.
pub fn parse_comment(stream: &mut Stream) -> (items: Result<Vec<ROMItem>, UxnError>)
    requires
        old(stream).wf(),
    ensures
        final(stream).wf(),
        match spec_comment(old(stream).input@, old(stream).pos as int) {
            Some(end) => items is Ok && items->Ok_0@.len() == 0 && final(stream).moved(
                old(stream),
                end,
            ) && end > old(stream).pos,
            None => items == syntax_error::<Vec<ROMItem>>(old(stream).pos) && final(stream).moved(
                old(stream),
                old(stream).pos as int,
            ),
        },
{
    let input = stream.input;
    let start = stream.pos;
    if start >= input.len() || input[start] != OPEN_PAREN {
        return Err(UxnError::SyntaxError { position: start });
    }
    let mut i: usize = start + 1;
    while i < input.len() && input[i] != CLOSE_PAREN
        invariant
            start < i <= input@.len(),
            index_of(input@, start + 1, CLOSE_PAREN) == index_of(input@, i as int, CLOSE_PAREN),
        decreases input@.len() - i,
    {
        i = i + 1;
    }
    if i >= input.len() {
        return Err(UxnError::SyntaxError { position: start });
    }
    stream.pos = i + 1;
    Ok(Vec::new())
}

/// The mnemonic at `i`, with the byte of its base operation.
pub open spec fn spec_base_opcode(s: Seq<u8>, i: int) -> Option<(Seq<u8>, u8)> {
    if 0 <= i && i + 3 <= s.len() {
        match spec_encode_base_code(s.subrange(i, i + 3)) {
            Some(byte) => Some((s.subrange(i, i + 3), byte)),
            None => None,
        }
    } else {
        None
    }
}

/// Takes the mnemonic of a base operation, and gives it with its byte.
fn base_opcode<'a>(stream: &mut Stream<'a>) -> (found: Result<(&'a [u8], u8), UxnError>)
    requires
        old(stream).wf(),
    ensures
        final(stream).wf(),
        match spec_base_opcode(old(stream).input@, old(stream).pos as int) {
            Some((name, byte)) => found is Ok && found->Ok_0.0@ == name && found->Ok_0.1 == byte
                && final(stream).moved(old(stream), old(stream).pos + 3),
            None => found == syntax_error::<(&[u8], u8)>(old(stream).pos) && final(stream).moved(
                old(stream),
                old(stream).pos as int,
            ),
        },
{
    let input = stream.input;
    let start = stream.pos;
    if input.len() - start < 3 {
        return Err(UxnError::SyntaxError { position: start });
    }
    let name = vstd::slice::slice_subrange(input, start, start + 3);
    match encode_base_code(name) {
        Ok(byte) => {
            stream.pos = start + 3;
            Ok((name, byte))
        },
        Err(_) => Err(UxnError::SyntaxError { position: start }),
    }
}

/// Takes the mnemonic of a base operation.
pub fn parse_base_opcode<'a>(stream: &mut Stream<'a>) -> (mnemonic: Result<&'a [u8], UxnError>)
    requires
        old(stream).wf(),
    ensures
        final(stream).wf(),
        match spec_base_opcode(old(stream).input@, old(stream).pos as int) {
            Some((name, _)) => mnemonic is Ok && mnemonic->Ok_0@ == name && final(stream).moved(
                old(stream),
                old(stream).pos + 3,
            ),
            None => mnemonic == syntax_error::<&[u8]>(old(stream).pos) && final(stream).moved(
                old(stream),
                old(stream).pos as int,
            ),
        },
{
    match base_opcode(stream) {
        Ok((name, _)) => Ok(name),
        Err(e) => Err(e),
    }
}

/// Takes the mnemonic of a base operation, and gives its byte.
pub fn calculate_base_opcode(stream: &mut Stream) -> (byte: Result<u8, UxnError>)
    requires
        old(stream).wf(),
    ensures
        final(stream).wf(),
        match spec_base_opcode(old(stream).input@, old(stream).pos as int) {
            Some((_, b)) => byte == Ok::<u8, UxnError>(b) && final(stream).moved(
                old(stream),
                old(stream).pos + 3,
            ),
            None => byte == syntax_error::<u8>(old(stream).pos) && final(stream).moved(
                old(stream),
                old(stream).pos as int,
            ),
        },
{
    match base_opcode(stream) {
        Ok((_, byte)) => Ok(byte),
        Err(e) => Err(e),
    }
}

/// Whether the flag letter `letter` stands at `i`.
pub open spec fn spec_flag(s: Seq<u8>, i: int, letter: u8) -> bool {
    0 <= i < s.len() && s[i] == letter
}

/// The position after an optional flag letter at `i`.
pub open spec fn after_flag(s: Seq<u8>, i: int, letter: u8) -> int {
    if spec_flag(s, i, letter) {
        i + 1
    } else {
        i
    }
}

/// The flag letters at `i`: each of `2`, `k` and `r` at most once, in this
/// order. Gives the short, keep and return flag, and the position after the
/// letters.
pub open spec fn spec_opcode_flags(s: Seq<u8>, i: int) -> ((bool, bool, bool), int) {
    let after_short = after_flag(s, i, SHORT_LETTER);
    let after_keep = after_flag(s, after_short, KEEP_LETTER);
    (
        (spec_flag(s, i, SHORT_LETTER), spec_flag(s, after_short, KEEP_LETTER), spec_flag(s, after_keep, RETURN_LETTER)),
        after_flag(s, after_keep, RETURN_LETTER),
    )
}

/// Takes the flag letter `letter`, if it is there.
fn parse_flag(stream: &mut Stream, letter: u8) -> (set: bool)
    requires
        old(stream).wf(),
    ensures
        final(stream).wf(),
        set == spec_flag(old(stream).input@, old(stream).pos as int, letter),
        final(stream).moved(
            old(stream),
            after_flag(old(stream).input@, old(stream).pos as int, letter),
        ),
{
    if stream.pos < stream.input.len() && stream.input[stream.pos] == letter {
        stream.pos = stream.pos + 1;
        true
    } else {
        false
    }
}

/// Takes the short flag `2`, if it is there.
pub fn parse_short_flag(stream: &mut Stream) -> (set: bool)
    requires
        old(stream).wf(),
    ensures
        final(stream).wf(),
        set == spec_flag(old(stream).input@, old(stream).pos as int, SHORT_LETTER),
        final(stream).moved(
            old(stream),
            after_flag(old(stream).input@, old(stream).pos as int, SHORT_LETTER),
        ),
{
    parse_flag(stream, SHORT_LETTER)
}

/// Takes the keep flag `k`, if it is there.
pub fn parse_keep_flag(stream: &mut Stream) -> (set: bool)
    requires
        old(stream).wf(),
    ensures
        final(stream).wf(),
        set == spec_flag(old(stream).input@, old(stream).pos as int, KEEP_LETTER),
        final(stream).moved(
            old(stream),
            after_flag(old(stream).input@, old(stream).pos as int, KEEP_LETTER),
        ),
{
    parse_flag(stream, KEEP_LETTER)
}

/// Takes the return flag `r`, if it is there.
pub fn parse_return_flag(stream: &mut Stream) -> (set: bool)
    requires
        old(stream).wf(),
    ensures
        final(stream).wf(),
        set == spec_flag(old(stream).input@, old(stream).pos as int, RETURN_LETTER),
        final(stream).moved(
            old(stream),
            after_flag(old(stream).input@, old(stream).pos as int, RETURN_LETTER),
        ),
{
    parse_flag(stream, RETURN_LETTER)
}

/// Takes the flag letters: short, keep and return, in this order.
pub fn parse_opcode_flags(stream: &mut Stream) -> (flags: (bool, bool, bool))
    requires
        old(stream).wf(),
    ensures
        final(stream).wf(),
        flags == spec_opcode_flags(old(stream).input@, old(stream).pos as int).0,
        final(stream).moved(
            old(stream),
            spec_opcode_flags(old(stream).input@, old(stream).pos as int).1,
        ),
{
    let short = parse_short_flag(stream);
    let keep = parse_keep_flag(stream);
    let ret = parse_return_flag(stream);
    (short, keep, ret)
}

/// Takes the flag letters, and gives their bits in an instruction byte.
pub fn calculate_flags(stream: &mut Stream) -> (bits: u8)
    requires
        old(stream).wf(),
    ensures
        final(stream).wf(),
        ({
            let (flags, end) = spec_opcode_flags(old(stream).input@, old(stream).pos as int);
            bits == spec_flag_bits(flags.0, flags.1, flags.2) && final(stream).moved(
                old(stream),
                end,
            )
        }),
{
    let flags = parse_opcode_flags(stream);
    flag_bits(flags.0, flags.1, flags.2)
}

/// The instruction at `i`: a mnemonic with its flag letters, where the letters
/// are valid for it. Gives the instruction byte and the position after it.
pub open spec fn spec_opcode(s: Seq<u8>, i: int) -> Option<(u8, int)> {
    match spec_base_opcode(s, i) {
        Some((name, _)) => {
            let (flags, end) = spec_opcode_flags(s, i + 3);
            match spec_encode(name, flags.0, flags.1, flags.2) {
                Some(byte) => Some((byte, end)),
                None => None,
            }
        },
        None => None,
    }
}

/// Takes an instruction: a mnemonic and its flag letters. Flag letters that
/// are not valid for the mnemonic are an error.
pub fn parse_opcode(stream: &mut Stream) -> (items: Result<Vec<ROMItem>, UxnError>)
    requires
        old(stream).wf(),
    ensures
        final(stream).wf(),
        match spec_opcode(old(stream).input@, old(stream).pos as int) {
            Some((byte, end)) => items is Ok && items_view(items->Ok_0@) == seq![Item::Byte(byte)]
                && final(stream).moved(old(stream), end) && end > old(stream).pos,
            None => items == syntax_error::<Vec<ROMItem>>(old(stream).pos) && final(stream).moved(
                old(stream),
                old(stream).pos as int,
            ),
        },
{
    let start = stream.pos;
    let base = match calculate_base_opcode(stream) {
        Ok(b) => b,
        Err(e) => {
            return Err(e);
        },
    };
    let bits = calculate_flags(stream);
    if bits >= KEEP_FLAG {
        stream.pos = start;
        return Err(UxnError::SyntaxError { position: start });
    }
    proof {
        lemma_join_adds(base, bits);
    }
    let mut out: Vec<ROMItem> = Vec::new();
    out.push(ROMItem::Byte(base | bits));
    Ok(out)
}

/// A run of items, and the position after the text they were read from.
pub type Parsed = Option<(Seq<Item>, int)>;

/// The macros defined so far: the body of each, by name.
pub type Macros = Map<Seq<u8>, Seq<Item>>;

/// An absolute pad after its sigil: four digits give the address, two give
/// its low byte.
pub open spec fn spec_abs_pad(s: Seq<u8>, i: int) -> Parsed {
    match spec_hexshort(s, i) {
        Some((high, low)) => Some((seq![Item::AbsPad(high, low)], i + 4)),
        None => match spec_hexbyte(s, i) {
            Some(low) => Some((seq![Item::AbsPad(0, low)], i + 2)),
            None => None,
        },
    }
}

/// A relative pad after its sigil: four digits give the distance, two or one
/// give its low byte.
pub open spec fn spec_rel_pad(s: Seq<u8>, i: int) -> Parsed {
    match spec_hexshort(s, i) {
        Some((high, low)) => Some((seq![Item::RelPad(high, low)], i + 4)),
        None => match spec_hexbyte(s, i) {
            Some(low) => Some((seq![Item::RelPad(0, low)], i + 2)),
            None => match spec_nibble(s, i) {
                Some(low) => Some((seq![Item::RelPad(0, low)], i + 1)),
                None => None,
            },
        },
    }
}

/// An immediate literal after its sigil: four digits make the short load
/// with its two bytes, two digits make the byte load with its one.
pub open spec fn spec_lit(s: Seq<u8>, i: int) -> Parsed {
    match spec_hexshort(s, i) {
        Some((high, low)) => Some(
            (seq![Item::Byte(LIT2), Item::Byte(high), Item::Byte(low)], i + 4),
        ),
        None => match spec_hexbyte(s, i) {
            Some(b) => Some((seq![Item::Byte(LIT), Item::Byte(b)], i + 2)),
            None => None,
        },
    }
}

/// A label definition after its sigil.
pub open spec fn spec_label(s: Seq<u8>, i: int) -> Parsed {
    match spec_take_label(s, i) {
        Some((name, end)) => Some((seq![Item::Location(name)], end)),
        None => None,
    }
}

/// A sub-label definition after its sigil. Its parent is not written down: it
/// is the label defined last before it.
pub open spec fn spec_sublabel(s: Seq<u8>, i: int) -> Parsed {
    match spec_take_label(s, i) {
        Some((name, end)) => Some((seq![Item::SubLocation(None, name)], end)),
        None => None,
    }
}

/// The reference that a name stands for: with a slash in it, a reference to
/// the sub-label after the first slash under the label before it; without
/// one, a reference to the label.
pub open spec fn spec_reference(name: Seq<u8>, zero_page: bool) -> Item {
    let slash = index_of(name, 0, SLASH);
    if slash < name.len() {
        let parent = name.subrange(0, slash);
        let child = name.subrange(slash + 1, name.len() as int);
        if zero_page {
            Item::ZeroSubAddr(parent, child)
        } else {
            Item::SubAddr(parent, child)
        }
    } else {
        if zero_page {
            Item::ZeroAddr(name)
        } else {
            Item::Addr(name)
        }
    }
}

/// An address reference after its sigil.
pub open spec fn spec_address(s: Seq<u8>, i: int, zero_page: bool) -> Parsed {
    match spec_take_label(s, i) {
        Some((name, end)) => Some((seq![spec_reference(name, zero_page)], end)),
        None => None,
    }
}

/// A macro invocation: the name of a macro that is defined.
pub open spec fn spec_macro_call(s: Seq<u8>, i: int, macros: Macros) -> Parsed {
    match spec_take_label(s, i) {
        Some((name, end)) => if macros.contains_key(name) {
            Some((seq![Item::Macro(name)], end))
        } else {
            None
        },
        None => None,
    }
}

/// The first position from `i` on that holds a byte that ends a macro's name
/// where it is defined: one that ends a name, or an opening brace.
pub open spec fn macro_name_end(s: Seq<u8>, i: int) -> int
    decreases s.len() - i,
{
    if 0 <= i < s.len() && !is_name_end(s[i]) && s[i] != OPEN_BRACE {
        macro_name_end(s, i + 1)
    } else {
        i
    }
}

/// A macro definition after its sigil: a name, then the body between braces,
/// with whitespace allowed before the opening brace.
///
/// A definition that succeeds records the body under the name. One that
/// fails keeps the macros that were defined inside its body.
pub open spec fn spec_macro_def(s: Seq<u8>, i: int, macros: Macros) -> (Parsed, Macros)
    decreases s.len() - i, 0int,
    when 0 <= i <= s.len()
{
    let name_stop = macro_name_end(s, i);
    let brace = skip_whitespace(s, name_stop);
    if name_stop > i && 0 <= brace < s.len() && s[brace] == OPEN_BRACE && brace >= i {
        let name = s.subrange(i, name_stop);
        let (body, end, inner) = spec_tal(s, brace + 1, macros);
        if 0 <= end < s.len() && s[end] == CLOSE_BRACE {
            (Some((seq![Item::MacroDef(name, body)], end + 1)), inner.insert(name, body))
        } else {
            (None, inner)
        }
    } else {
        (None, macros)
    }
}

/// A directive: a sigil, and what the sigil asks for after it.
pub open spec fn spec_rune(s: Seq<u8>, i: int, macros: Macros) -> (Parsed, Macros)
    decreases s.len() - i, 1int,
    when 0 <= i <= s.len()
{
    if i >= s.len() {
        (None, macros)
    } else if s[i] == MACRO_SIGIL {
        spec_macro_def(s, i + 1, macros)
    } else if s[i] == ABS_PAD_SIGIL {
        (spec_abs_pad(s, i + 1), macros)
    } else if s[i] == REL_PAD_SIGIL {
        (spec_rel_pad(s, i + 1), macros)
    } else if s[i] == LABEL_SIGIL {
        (spec_label(s, i + 1), macros)
    } else if s[i] == SUBLABEL_SIGIL {
        (spec_sublabel(s, i + 1), macros)
    } else if s[i] == LIT_SIGIL {
        (spec_lit(s, i + 1), macros)
    } else if s[i] == ZERO_ADDR_SIGIL {
        (spec_address(s, i + 1, true), macros)
    } else if s[i] == ABS_ADDR_SIGIL {
        (spec_address(s, i + 1, false), macros)
    } else {
        (None, macros)
    }
}

/// One token: the first of a comment, a directive, an instruction, a run of
/// literal bytes and a macro invocation that is found at `i`.
pub open spec fn spec_next_tokens(s: Seq<u8>, i: int, macros: Macros) -> (Parsed, Macros)
    decreases s.len() - i, 2int,
    when 0 <= i <= s.len()
{
    match spec_comment(s, i) {
        Some(end) => (Some((Seq::empty(), end)), macros),
        None => {
            let (rune, after) = spec_rune(s, i, macros);
            match rune {
                Some(found) => (Some(found), after),
                None => match spec_opcode(s, i) {
                    Some((byte, end)) => (Some((seq![Item::Byte(byte)], end)), after),
                    None => match spec_many_hexbytes(s, i) {
                        Some(found) => (Some(found), after),
                        None => (spec_macro_call(s, i, after), after),
                    },
                },
            }
        },
    }
}

/// The tokens that follow those in `taken`, each after whitespace. Gives all
/// the items, the position after the last token, and the macros defined.
///
/// A token that is found always ends after where it starts and within the
/// text (`lemma_token_progress`); the test for it here only shows that this
/// definition terminates.
pub open spec fn spec_tokens_rest(s: Seq<u8>, i: int, macros: Macros, taken: Seq<Item>) -> (
    Seq<Item>,
    int,
    Macros,
)
    decreases s.len() - i, 3int,
    when 0 <= i <= s.len()
{
    let next = skip_whitespace(s, i);
    if i < next <= s.len() {
        let (token, after) = spec_next_tokens(s, next, macros);
        match token {
            Some((items, end)) => if next < end <= s.len() {
                spec_tokens_rest(s, end, after, taken + items)
            } else {
                (taken + items, end, after)
            },
            None => (taken, i, after),
        }
    } else {
        (taken, i, macros)
    }
}

/// A program, or the body of a macro: tokens with whitespace between them,
/// and whitespace allowed before the first and after the last. Takes as
/// many tokens as there are, so it never fails. Gives the items, the position
/// after them, and the macros defined.
///
/// A token that is found always ends after where it starts and within the
/// text (`lemma_token_progress`); the test for it here only shows that this
/// definition terminates.
pub open spec fn spec_tal(s: Seq<u8>, i: int, macros: Macros) -> (Seq<Item>, int, Macros)
    decreases s.len() - i, 4int,
    when 0 <= i <= s.len()
{
    let first = skip_whitespace(s, i);
    if i <= first <= s.len() {
        let (token, after) = spec_next_tokens(s, first, macros);
        match token {
            Some((items, end)) => if first < end <= s.len() {
                let (all, last, defined) = spec_tokens_rest(s, end, after, items);
                (all, skip_whitespace(s, last), defined)
            } else {
                (items, end, after)
            },
            None => (Seq::empty(), first, after),
        }
    } else {
        (Seq::empty(), i, macros)
    }
}

/// A macro definition that succeeds ends after where it starts, within the
/// text.
pub proof fn lemma_macro_def_progress(s: Seq<u8>, i: int, macros: Macros)
    requires
        0 <= i <= s.len(),
    ensures
        spec_macro_def(s, i, macros).0 matches Some((_, end)) ==> i < end <= s.len(),
    decreases s.len() - i, 0int,
{
    let name_stop = macro_name_end(s, i);
    let brace = skip_whitespace(s, name_stop);
    if name_stop > i && 0 <= brace < s.len() && s[brace] == OPEN_BRACE && brace >= i {
        lemma_tal_bounds(s, brace + 1, macros);
    }
}

/// A directive that succeeds ends after where it starts, within the text.
pub proof fn lemma_rune_progress(s: Seq<u8>, i: int, macros: Macros)
    requires
        0 <= i <= s.len(),
    ensures
        spec_rune(s, i, macros).0 matches Some((_, end)) ==> i < end <= s.len(),
    decreases s.len() - i, 1int,
{
    if i < s.len() {
        lemma_scan_bounds(s, i + 1, 0);
        if s[i] == MACRO_SIGIL {
            lemma_macro_def_progress(s, i + 1, macros);
        }
    }
}

/// A token takes at least one byte, and none after the end of the text.
pub proof fn lemma_token_progress(s: Seq<u8>, i: int, macros: Macros)
    requires
        0 <= i <= s.len(),
    ensures
        spec_next_tokens(s, i, macros).0 matches Some((_, end)) ==> i < end <= s.len(),
    decreases s.len() - i, 2int,
{
    if i < s.len() {
        lemma_scan_bounds(s, i + 1, CLOSE_PAREN);
    }
    lemma_rune_progress(s, i, macros);
    lemma_hexbytes_from(s, i, Seq::empty());
}

/// The tokens after the first end at or after where they start, within the
/// text.
pub proof fn lemma_rest_bounds(s: Seq<u8>, i: int, macros: Macros, taken: Seq<Item>)
    requires
        0 <= i <= s.len(),
    ensures
        i <= spec_tokens_rest(s, i, macros, taken).1 <= s.len(),
    decreases s.len() - i, 3int,
{
    let next = skip_whitespace(s, i);
    if i < next <= s.len() {
        let (token, after) = spec_next_tokens(s, next, macros);
        lemma_token_progress(s, next, macros);
        match token {
            Some((items, end)) => {
                lemma_rest_bounds(s, end, after, taken + items);
            },
            None => {},
        }
    }
}

/// A program ends at or after where it starts, within the text.
pub proof fn lemma_tal_bounds(s: Seq<u8>, i: int, macros: Macros)
    requires
        0 <= i <= s.len(),
    ensures
        i <= spec_tal(s, i, macros).1 <= s.len(),
    decreases s.len() - i, 4int,
{
    let first = skip_whitespace(s, i);
    lemma_scan_bounds(s, i, 0);
    let (token, after) = spec_next_tokens(s, first, macros);
    lemma_token_progress(s, first, macros);
    match token {
        Some((items, end)) => {
            lemma_rest_bounds(s, end, after, items);
            let last = spec_tokens_rest(s, end, after, items).1;
            lemma_scan_bounds(s, last, 0);
        },
        None => {},
    }
}

/// A run of one item.
fn single(item: ROMItem) -> (items: Vec<ROMItem>)
    ensures
        items_view(items@) == seq![item@],
{
    let mut items: Vec<ROMItem> = Vec::new();
    items.push(item);
    items
}

/// Takes the four digits of an absolute pad.
pub fn abs_pad_rune_short(stream: &mut Stream) -> (items: Result<Vec<ROMItem>, UxnError>)
    requires
        old(stream).wf(),
    ensures
        final(stream).wf(),
        match spec_hexshort(old(stream).input@, old(stream).pos as int) {
            Some((high, low)) => items is Ok && items_view(items->Ok_0@) == seq![
                Item::AbsPad(high, low),
            ] && final(stream).moved(old(stream), old(stream).pos + 4),
            None => items == syntax_error::<Vec<ROMItem>>(old(stream).pos) && final(stream).moved(
                old(stream),
                old(stream).pos as int,
            ),
        },
{
    match hexshort(stream) {
        Ok((high, low)) => Ok(single(ROMItem::AbsPad(high, low))),
        Err(e) => Err(e),
    }
}

/// Takes the two digits of an absolute pad into the zero page.
pub fn abs_pad_rune_byte(stream: &mut Stream) -> (items: Result<Vec<ROMItem>, UxnError>)
    requires
        old(stream).wf(),
    ensures
        final(stream).wf(),
        match spec_hexbyte(old(stream).input@, old(stream).pos as int) {
            Some(low) => items is Ok && items_view(items->Ok_0@) == seq![Item::AbsPad(0, low)]
                && final(stream).moved(old(stream), old(stream).pos + 2),
            None => items == syntax_error::<Vec<ROMItem>>(old(stream).pos) && final(stream).moved(
                old(stream),
                old(stream).pos as int,
            ),
        },
{
    match hexbyte(stream) {
        Ok(low) => Ok(single(ROMItem::AbsPad(0, low))),
        Err(e) => Err(e),
    }
}

/// Takes what follows the sigil of an absolute pad.
pub fn abs_pad_rune(stream: &mut Stream) -> (items: Result<Vec<ROMItem>, UxnError>)
    requires
        old(stream).wf(),
    ensures
        final(stream).wf(),
        match spec_abs_pad(old(stream).input@, old(stream).pos as int) {
            Some((found, end)) => items is Ok && items_view(items->Ok_0@) == found && final(stream).moved(old(stream), end) && end > old(stream).pos,
            None => items == syntax_error::<Vec<ROMItem>>(old(stream).pos) && final(stream).moved(
                old(stream),
                old(stream).pos as int,
            ),
        },
{
    match abs_pad_rune_short(stream) {
        Ok(items) => Ok(items),
        Err(_) => abs_pad_rune_byte(stream),
    }
}

/// Takes the four digits of a relative pad.
pub fn rel_pad_rune_short(stream: &mut Stream) -> (items: Result<Vec<ROMItem>, UxnError>)
    requires
        old(stream).wf(),
    ensures
        final(stream).wf(),
        match spec_hexshort(old(stream).input@, old(stream).pos as int) {
            Some((high, low)) => items is Ok && items_view(items->Ok_0@) == seq![
                Item::RelPad(high, low),
            ] && final(stream).moved(old(stream), old(stream).pos + 4),
            None => items == syntax_error::<Vec<ROMItem>>(old(stream).pos) && final(stream).moved(
                old(stream),
                old(stream).pos as int,
            ),
        },
{
    match hexshort(stream) {
        Ok((high, low)) => Ok(single(ROMItem::RelPad(high, low))),
        Err(e) => Err(e),
    }
}

/// Takes the two digits of a short relative pad.
pub fn rel_pad_rune_byte(stream: &mut Stream) -> (items: Result<Vec<ROMItem>, UxnError>)
    requires
        old(stream).wf(),
    ensures
        final(stream).wf(),
        match spec_hexbyte(old(stream).input@, old(stream).pos as int) {
            Some(low) => items is Ok && items_view(items->Ok_0@) == seq![Item::RelPad(0, low)]
                && final(stream).moved(old(stream), old(stream).pos + 2),
            None => items == syntax_error::<Vec<ROMItem>>(old(stream).pos) && final(stream).moved(
                old(stream),
                old(stream).pos as int,
            ),
        },
{
    match hexbyte(stream) {
        Ok(low) => Ok(single(ROMItem::RelPad(0, low))),
        Err(e) => Err(e),
    }
}

/// Takes the one digit of the shortest relative pad.
pub fn rel_pad_rune_nibble(stream: &mut Stream) -> (items: Result<Vec<ROMItem>, UxnError>)
    requires
        old(stream).wf(),
    ensures
        final(stream).wf(),
        match spec_nibble(old(stream).input@, old(stream).pos as int) {
            Some(low) => items is Ok && items_view(items->Ok_0@) == seq![Item::RelPad(0, low)]
                && final(stream).moved(old(stream), old(stream).pos + 1),
            None => items == syntax_error::<Vec<ROMItem>>(old(stream).pos) && final(stream).moved(
                old(stream),
                old(stream).pos as int,
            ),
        },
{
    match parse_nibble(stream) {
        Ok(low) => Ok(single(ROMItem::RelPad(0, low))),
        Err(e) => Err(e),
    }
}

/// Takes what follows the sigil of a relative pad.
pub fn rel_pad_rune(stream: &mut Stream) -> (items: Result<Vec<ROMItem>, UxnError>)
    requires
        old(stream).wf(),
    ensures
        final(stream).wf(),
        match spec_rel_pad(old(stream).input@, old(stream).pos as int) {
            Some((found, end)) => items is Ok && items_view(items->Ok_0@) == found && final(stream).moved(old(stream), end) && end > old(stream).pos,
            None => items == syntax_error::<Vec<ROMItem>>(old(stream).pos) && final(stream).moved(
                old(stream),
                old(stream).pos as int,
            ),
        },
{
    match rel_pad_rune_short(stream) {
        Ok(items) => Ok(items),
        Err(_) => match rel_pad_rune_byte(stream) {
            Ok(items) => Ok(items),
            Err(_) => rel_pad_rune_nibble(stream),
        },
    }
}

/// Takes the four digits of an immediate short.
pub fn lit_rune_short(stream: &mut Stream) -> (items: Result<Vec<ROMItem>, UxnError>)
    requires
        old(stream).wf(),
    ensures
        final(stream).wf(),
        match spec_hexshort(old(stream).input@, old(stream).pos as int) {
            Some((high, low)) => items is Ok && items_view(items->Ok_0@) == seq![
                Item::Byte(LIT2),
                Item::Byte(high),
                Item::Byte(low),
            ] && final(stream).moved(old(stream), old(stream).pos + 4),
            None => items == syntax_error::<Vec<ROMItem>>(old(stream).pos) && final(stream).moved(
                old(stream),
                old(stream).pos as int,
            ),
        },
{
    match parse_hexshort(stream) {
        Ok((high, low)) => {
            let mut items: Vec<ROMItem> = Vec::new();
            items.push(ROMItem::Byte(LIT2));
            items.push(high);
            items.push(low);
            Ok(items)
        },
        Err(e) => Err(e),
    }
}

/// Takes the two digits of an immediate byte.
pub fn lit_rune_byte(stream: &mut Stream) -> (items: Result<Vec<ROMItem>, UxnError>)
    requires
        old(stream).wf(),
    ensures
        final(stream).wf(),
        match spec_hexbyte(old(stream).input@, old(stream).pos as int) {
            Some(b) => items is Ok && items_view(items->Ok_0@) == seq![
                Item::Byte(LIT),
                Item::Byte(b),
            ] && final(stream).moved(old(stream), old(stream).pos + 2),
            None => items == syntax_error::<Vec<ROMItem>>(old(stream).pos) && final(stream).moved(
                old(stream),
                old(stream).pos as int,
            ),
        },
{
    match parse_hexbyte(stream) {
        Ok(byte) => {
            let mut items: Vec<ROMItem> = Vec::new();
            items.push(ROMItem::Byte(LIT));
            items.push(byte);
            Ok(items)
        },
        Err(e) => Err(e),
    }
}

/// Takes what follows the sigil of an immediate literal.
pub fn lit_rune(stream: &mut Stream) -> (items: Result<Vec<ROMItem>, UxnError>)
    requires
        old(stream).wf(),
    ensures
        final(stream).wf(),
        match spec_lit(old(stream).input@, old(stream).pos as int) {
            Some((found, end)) => items is Ok && items_view(items->Ok_0@) == found && final(stream).moved(old(stream), end) && end > old(stream).pos,
            None => items == syntax_error::<Vec<ROMItem>>(old(stream).pos) && final(stream).moved(
                old(stream),
                old(stream).pos as int,
            ),
        },
{
    match lit_rune_short(stream) {
        Ok(items) => Ok(items),
        Err(_) => lit_rune_byte(stream),
    }
}

/// Takes the name of a label definition.
pub fn label_rune(stream: &mut Stream) -> (items: Result<Vec<ROMItem>, UxnError>)
    requires
        old(stream).wf(),
    ensures
        final(stream).wf(),
        match spec_label(old(stream).input@, old(stream).pos as int) {
            Some((found, end)) => items is Ok && items_view(items->Ok_0@) == found && final(stream).moved(old(stream), end) && end > old(stream).pos,
            None => items == syntax_error::<Vec<ROMItem>>(old(stream).pos) && final(stream).moved(
                old(stream),
                old(stream).pos as int,
            ),
        },
{
    match take_label(stream) {
        Ok(name) => Ok(single(ROMItem::Location(vstd::slice::slice_to_vec(name)))),
        Err(e) => Err(e),
    }
}

/// Takes the name of a sub-label definition.
pub fn sublabel_rune(stream: &mut Stream) -> (items: Result<Vec<ROMItem>, UxnError>)
    requires
        old(stream).wf(),
    ensures
        final(stream).wf(),
        match spec_sublabel(old(stream).input@, old(stream).pos as int) {
            Some((found, end)) => items is Ok && items_view(items->Ok_0@) == found && final(stream).moved(old(stream), end) && end > old(stream).pos,
            None => items == syntax_error::<Vec<ROMItem>>(old(stream).pos) && final(stream).moved(
                old(stream),
                old(stream).pos as int,
            ),
        },
{
    match take_label(stream) {
        Ok(name) => Ok(single(ROMItem::SubLocation(None, vstd::slice::slice_to_vec(name)))),
        Err(e) => Err(e),
    }
}

/// The reference that a name stands for.
fn reference(name: &[u8], zero_page: bool) -> (item: ROMItem)
    ensures
        item@ == spec_reference(name@, zero_page),
{
    let mut slash: usize = 0;
    while slash < name.len() && name[slash] != SLASH
        invariant
            slash <= name@.len(),
            index_of(name@, 0, SLASH) == index_of(name@, slash as int, SLASH),
        decreases name@.len() - slash,
    {
        slash = slash + 1;
    }
    if slash < name.len() {
        let parent = vstd::slice::slice_to_vec(vstd::slice::slice_subrange(name, 0, slash));
        let child = vstd::slice::slice_to_vec(
            vstd::slice::slice_subrange(name, slash + 1, name.len()),
        );
        if zero_page {
            ROMItem::ZeroSubAddr(parent, child)
        } else {
            ROMItem::SubAddr(parent, child)
        }
    } else {
        let whole = vstd::slice::slice_to_vec(name);
        if zero_page {
            ROMItem::ZeroAddr(whole)
        } else {
            ROMItem::Addr(whole)
        }
    }
}

/// Takes the name of an absolute address reference.
pub fn abs_addr_rune(stream: &mut Stream) -> (items: Result<Vec<ROMItem>, UxnError>)
    requires
        old(stream).wf(),
    ensures
        final(stream).wf(),
        match spec_address(old(stream).input@, old(stream).pos as int, false) {
            Some((found, end)) => items is Ok && items_view(items->Ok_0@) == found && final(stream).moved(old(stream), end) && end > old(stream).pos,
            None => items == syntax_error::<Vec<ROMItem>>(old(stream).pos) && final(stream).moved(
                old(stream),
                old(stream).pos as int,
            ),
        },
{
    match take_label(stream) {
        Ok(name) => Ok(single(reference(name, false))),
        Err(e) => Err(e),
    }
}

/// Takes the name of a zero-page address reference.
pub fn zero_addr_rune(stream: &mut Stream) -> (items: Result<Vec<ROMItem>, UxnError>)
    requires
        old(stream).wf(),
    ensures
        final(stream).wf(),
        match spec_address(old(stream).input@, old(stream).pos as int, true) {
            Some((found, end)) => items is Ok && items_view(items->Ok_0@) == found && final(stream).moved(old(stream), end) && end > old(stream).pos,
            None => items == syntax_error::<Vec<ROMItem>>(old(stream).pos) && final(stream).moved(
                old(stream),
                old(stream).pos as int,
            ),
        },
{
    match take_label(stream) {
        Ok(name) => Ok(single(reference(name, true))),
        Err(e) => Err(e),
    }
}

/// Takes the invocation of a macro that is defined.
pub fn parse_macro_call(stream: &mut Stream) -> (items: Result<Vec<ROMItem>, UxnError>)
    requires
        old(stream).wf(),
    ensures
        final(stream).wf(),
        match spec_macro_call(old(stream).input@, old(stream).pos as int, old(stream).state@) {
            Some((found, end)) => items is Ok && items_view(items->Ok_0@) == found && final(stream).moved(old(stream), end) && end > old(stream).pos,
            None => items == syntax_error::<Vec<ROMItem>>(old(stream).pos) && final(stream).moved(
                old(stream),
                old(stream).pos as int,
            ),
        },
{
    let start = stream.pos;
    match take_label(stream) {
        Ok(name) => {
            if stream.state.contains(name) {
                Ok(single(ROMItem::Macro(vstd::slice::slice_to_vec(name))))
            } else {
                stream.pos = start;
                Err(UxnError::SyntaxError { position: start })
            }
        },
        Err(e) => Err(e),
    }
}

/// Takes what follows the sigil of a macro definition, and records the
/// macro.
pub fn parse_macro_def(stream: &mut Stream) -> (items: Result<Vec<ROMItem>, UxnError>)
    requires
        old(stream).wf(),
    ensures
        final(stream).wf(),
        final(stream).input == old(stream).input,
        ({
            let (parsed, macros) = spec_macro_def(
                old(stream).input@,
                old(stream).pos as int,
                old(stream).state@,
            );
            &&& final(stream).state@ == macros
            &&& match parsed {
                Some((found, end)) => items is Ok && items_view(items->Ok_0@) == found && final(stream).pos == end && end > old(stream).pos,
                None => items == syntax_error::<Vec<ROMItem>>(old(stream).pos) && final(stream).pos == old(stream).pos,
            }
        }),
    decreases old(stream).input@.len() - old(stream).pos, 0int,
{
    let input = stream.input;
    let start = stream.pos;
    let mut name_stop: usize = start;
    while name_stop < input.len() && !(input[name_stop] == SPACE || input[name_stop] == TAB
        || input[name_stop] == LINE_END || input[name_stop] == OPEN_BRACE)
        invariant
            start <= name_stop <= input@.len(),
            macro_name_end(input@, start as int) == macro_name_end(input@, name_stop as int),
        decreases input@.len() - name_stop,
    {
        name_stop = name_stop + 1;
    }
    if name_stop == start {
        return Err(UxnError::SyntaxError { position: start });
    }
    stream.pos = name_stop;
    take_whitespace0(stream);
    let brace = stream.pos;
    if brace >= input.len() || input[brace] != OPEN_BRACE {
        stream.pos = start;
        return Err(UxnError::SyntaxError { position: start });
    }
    stream.pos = brace + 1;
    let body = parse_tal(stream);
    let end = stream.pos;
    if end >= input.len() || input[end] != CLOSE_BRACE {
        stream.pos = start;
        return Err(UxnError::SyntaxError { position: start });
    }
    stream.pos = end + 1;
    let name = vstd::slice::slice_to_vec(vstd::slice::slice_subrange(input, start, name_stop));
    let copy = clone_items(&body);
    stream.state.define(clone_name(&name), copy);
    proof {
        lemma_macro_def_view(name, body);
    }
    Ok(single(ROMItem::MacroDef(name, body)))
}

/// Takes a directive: a sigil and what belongs to it.
pub fn parse_rune(stream: &mut Stream) -> (items: Result<Vec<ROMItem>, UxnError>)
    requires
        old(stream).wf(),
    ensures
        final(stream).wf(),
        final(stream).input == old(stream).input,
        ({
            let (parsed, macros) = spec_rune(
                old(stream).input@,
                old(stream).pos as int,
                old(stream).state@,
            );
            &&& final(stream).state@ == macros
            &&& match parsed {
                Some((found, end)) => items is Ok && items_view(items->Ok_0@) == found && final(stream).pos == end && end > old(stream).pos,
                None => items == syntax_error::<Vec<ROMItem>>(old(stream).pos) && final(stream).pos == old(stream).pos,
            }
        }),
    decreases old(stream).input@.len() - old(stream).pos, 1int,
{
    let start = stream.pos;
    if start >= stream.input.len() {
        return Err(UxnError::SyntaxError { position: start });
    }
    let sigil = stream.input[start];
    stream.pos = start + 1;
    let found = if sigil == MACRO_SIGIL {
        parse_macro_def(stream)
    } else if sigil == ABS_PAD_SIGIL {
        abs_pad_rune(stream)
    } else if sigil == REL_PAD_SIGIL {
        rel_pad_rune(stream)
    } else if sigil == LABEL_SIGIL {
        label_rune(stream)
    } else if sigil == SUBLABEL_SIGIL {
        sublabel_rune(stream)
    } else if sigil == LIT_SIGIL {
        lit_rune(stream)
    } else if sigil == ZERO_ADDR_SIGIL {
        zero_addr_rune(stream)
    } else if sigil == ABS_ADDR_SIGIL {
        abs_addr_rune(stream)
    } else {
        Err(UxnError::SyntaxError { position: start })
    };
    match found {
        Ok(items) => Ok(items),
        Err(_) => {
            stream.pos = start;
            Err(UxnError::SyntaxError { position: start })
        },
    }
}

/// Takes one token, and gives the items it stands for.
pub fn next_tokens(stream: &mut Stream) -> (items: Result<Vec<ROMItem>, UxnError>)
    requires
        old(stream).wf(),
    ensures
        final(stream).wf(),
        final(stream).input == old(stream).input,
        ({
            let (parsed, macros) = spec_next_tokens(
                old(stream).input@,
                old(stream).pos as int,
                old(stream).state@,
            );
            &&& final(stream).state@ == macros
            &&& match parsed {
                Some((found, end)) => items is Ok && items_view(items->Ok_0@) == found && final(stream).pos == end && end > old(stream).pos,
                None => items == syntax_error::<Vec<ROMItem>>(old(stream).pos) && final(stream).pos == old(stream).pos,
            }
        }),
    decreases old(stream).input@.len() - old(stream).pos, 2int,
{
    match parse_comment(stream) {
        Ok(items) => {
            return Ok(items);
        },
        Err(_) => {},
    }
    match parse_rune(stream) {
        Ok(items) => {
            return Ok(items);
        },
        Err(_) => {},
    }
    match parse_opcode(stream) {
        Ok(items) => {
            return Ok(items);
        },
        Err(_) => {},
    }
    match parse_many_hexbytes(stream) {
        Ok(items) => {
            return Ok(items);
        },
        Err(_) => {},
    }
    parse_macro_call(stream)
}

/// Takes a program, or the body of a macro: as many tokens as there are, with
/// whitespace between them, before the first and after the last.
///
/// It stops before the first text that is no token, so it cannot fail.
pub fn parse_tal(stream: &mut Stream) -> (items: Vec<ROMItem>)
    requires
        old(stream).wf(),
    ensures
        final(stream).wf(),
        final(stream).input == old(stream).input,
        ({
            let (found, end, macros) = spec_tal(
                old(stream).input@,
                old(stream).pos as int,
                old(stream).state@,
            );
            &&& items_view(items@) == found
            &&& final(stream).pos == end
            &&& final(stream).state@ == macros
        }),
        final(stream).pos >= old(stream).pos,
    decreases old(stream).input@.len() - old(stream).pos, 4int,
{
    let ghost text = stream.input@;
    let ghost target = spec_tal(text, stream.pos as int, stream.state@);
    take_whitespace0(stream);
    let mut out: Vec<ROMItem> = match next_tokens(stream) {
        Ok(items) => items,
        Err(_) => {
            return Vec::new();
        },
    };
    loop
        invariant_except_break
            target == ({
                let (all, last, defined) = spec_tokens_rest(
                    text,
                    stream.pos as int,
                    stream.state@,
                    items_view(out@),
                );
                (all, skip_whitespace(text, last), defined)
            }),
        invariant
            stream.wf(),
            stream.input == old(stream).input,
            text == stream.input@,
            stream.pos > old(stream).pos,
        ensures
            stream.wf(),
            stream.input == old(stream).input,
            text == stream.input@,
            target == (
                items_view(out@),
                skip_whitespace(text, stream.pos as int),
                stream.state@,
            ),
        decreases stream.input@.len() - stream.pos,
    {
        let before = stream.pos;
        take_whitespace0(stream);
        if stream.pos == before {
            break ;
        }
        match next_tokens(stream) {
            Ok(mut items) => {
                let ghost taken = items_view(out@);
                let ghost more = items_view(items@);
                out.append(&mut items);
                assert(items_view(out@) =~= taken + more);
            },
            Err(_) => {
                stream.pos = before;
                break ;
            },
        }
    }
    take_whitespace0(stream);
    out
}

/// Parses a whole program. Input that is left over after the last token is a
/// syntax error at the position where it starts.
pub fn parse(stream: Stream) -> (items: Result<Vec<ROMItem>, UxnError>)
    requires
        stream.wf(),
    ensures
        ({
            let (found, end, _) = spec_tal(stream.input@, stream.pos as int, stream.state@);
            if end == stream.input@.len() {
                items is Ok && items_view(items->Ok_0@) == found
            } else {
                items == syntax_error::<Vec<ROMItem>>(end as usize)
            }
        }),
{
    let mut stream = stream;
    let items = parse_tal(&mut stream);
    if stream.is_eof() {
        Ok(items)
    } else {
        Err(UxnError::SyntaxError { position: stream.pos })
    }
}

} // verus!
