//! The assembler back end: macro expansion, address resolution and emission
//! of the memory image.

use crate::error::UxnError;
use crate::opcode::{LIT, LIT2};
use crate::parse::{
    bytes_eq, clone_item, clone_items, clone_name, item_view, items_view, lemma_macro_def_view,
    opt_name_view, parse, spec_tal, Item, ROMItem, State, Stream,
};
use vstd::prelude::*;

verus! {

/// First address of the program region. The write cursor starts here, and
/// nothing may be written below it.
pub const PROGRAM_START: u16 = 0x0100;

/// Number of bytes in the address space.
pub const MEMORY_SIZE: usize = 0x10000;

/// A label name with an optional sub-label name: the key of a location.
pub type LabelKey = (Seq<u8>, Option<Seq<u8>>);

/// The mathematical value of an optional borrowed name.
pub open spec fn opt_slice_view(name: Option<&[u8]>) -> Option<Seq<u8>> {
    match name {
        Some(n) => Some(n@),
        None => None,
    }
}

/// The 16-bit value whose big-endian bytes are `high` and `low`.
pub open spec fn short_of(high: u8, low: u8) -> u16 {
    (high as int * 256 + low as int) as u16
}

/// The high byte of a 16-bit value.
pub open spec fn high_byte(short: u16) -> u8 {
    (short as int / 256) as u8
}

/// The low byte of a 16-bit value.
pub open spec fn low_byte(short: u16) -> u8 {
    (short as int % 256) as u8
}

/// Joins two bytes, high byte first, into a 16-bit value.
pub fn join_bytes(high: u8, low: u8) -> (short: u16)
    ensures
        short == short_of(high, low),
        high_byte(short) == high,
        low_byte(short) == low,
{
    let h: u16 = high as u16;
    let l: u16 = low as u16;
    h * 256 + l
}

/// Splits a 16-bit value into its high and low byte.
pub fn split_short(short: u16) -> (bytes: (u8, u8))
    ensures
        bytes.0 == high_byte(short),
        bytes.1 == low_byte(short),
        short_of(bytes.0, bytes.1) == short,
{
    ((short / 256) as u8, (short % 256) as u8)
}

/// One binding of the location table.
struct LocationEntry {
    name: Vec<u8>,
    sub: Option<Vec<u8>>,
    addr: u16,
}

/// The location table: resolved addresses by label and optional sub-label.
///
/// Binding a key that is already bound replaces its address.
pub struct LocationTable {
    entries: Vec<LocationEntry>,
}

/// The key of a binding.
spec fn entry_key(entry: LocationEntry) -> LabelKey {
    (entry.name@, opt_name_view(entry.sub))
}

/// The map that a list of bindings stands for: a later binding of a key
/// replaces an earlier one.
spec fn table_of(entries: Seq<LocationEntry>) -> Map<LabelKey, u16>
    decreases entries.len(),
{
    if entries.len() == 0 {
        Map::empty()
    } else {
        table_of(entries.drop_last()).insert(entry_key(entries.last()), entries.last().addr)
    }
}

/// Whether some binding in the list has the key.
spec fn has_key(entries: Seq<LocationEntry>, key: LabelKey) -> bool {
    exists|i: int| 0 <= i < entries.len() && entry_key(#[trigger] entries[i]) == key
}

/// Whether no two bindings in the list have the same key.
spec fn distinct_keys(entries: Seq<LocationEntry>) -> bool {
    forall|i: int, j: int|
        0 <= i < j < entries.len() ==> entry_key(#[trigger] entries[i]) != entry_key(
            #[trigger] entries[j],
        )
}

/// The map binds exactly the keys of the list.
proof fn lemma_table_keys(entries: Seq<LocationEntry>, key: LabelKey)
    ensures
        table_of(entries).contains_key(key) <==> has_key(entries, key),
    decreases entries.len(),
{
    if entries.len() > 0 {
        let front = entries.drop_last();
        lemma_table_keys(front, key);
        if has_key(entries, key) && entry_key(entries.last()) != key {
            let i = choose|i: int|
                0 <= i < entries.len() && entry_key(#[trigger] entries[i]) == key;
            assert(front[i] == entries[i]);
        }
    }
}

/// In a list without a repeated key, the map binds each key to the address
/// of its binding.
proof fn lemma_table_value(entries: Seq<LocationEntry>, i: int)
    requires
        distinct_keys(entries),
        0 <= i < entries.len(),
    ensures
        table_of(entries).contains_key(entry_key(entries[i])),
        table_of(entries)[entry_key(entries[i])] == entries[i].addr,
    decreases entries.len(),
{
    if i < entries.len() - 1 {
        lemma_table_value(entries.drop_last(), i);
    }
}

/// In a list without a repeated key, the map binds as many keys as the list
/// has bindings.
proof fn lemma_table_len(entries: Seq<LocationEntry>)
    requires
        distinct_keys(entries),
    ensures
        table_of(entries).dom().finite(),
        table_of(entries).dom().len() == entries.len(),
    decreases entries.len(),
{
    if entries.len() > 0 {
        let front = entries.drop_last();
        lemma_table_len(front);
        lemma_table_keys(front, entry_key(entries.last()));
    }
}

impl View for LocationTable {
    type V = Map<LabelKey, u16>;

    closed spec fn view(&self) -> Map<LabelKey, u16> {
        table_of(self.entries@)
    }
}

/// Whether an optional name and an optional borrowed name are the same.
fn opt_bytes_eq(a: &Option<Vec<u8>>, b: Option<&[u8]>) -> (same: bool)
    ensures
        same == (opt_name_view(*a) == opt_slice_view(b)),
{
    match a {
        Some(x) => match b {
            Some(y) => bytes_eq(x.as_slice(), y),
            None => false,
        },
        None => match b {
            Some(_) => false,
            None => true,
        },
    }
}

/// An optional name, borrowed.
fn opt_as_slice(name: &Option<Vec<u8>>) -> (slice: Option<&[u8]>)
    ensures
        opt_slice_view(slice) == opt_name_view(*name),
{
    match name {
        Some(n) => Some(n.as_slice()),
        None => None,
    }
}

impl LocationTable {
    /// The table holds each key once.
    pub closed spec fn wf(&self) -> bool {
        distinct_keys(self.entries@)
    }

    /// A table that binds nothing.
    pub fn new() -> (table: LocationTable)
        ensures
            table.wf(),
            table@ == Map::<LabelKey, u16>::empty(),
    {
        LocationTable { entries: Vec::new() }
    }

    /// Where the table holds `(name, sub)`, if it does.
    fn position(&self, name: &[u8], sub: Option<&[u8]>) -> (found: Option<usize>)
        ensures
            match found {
                Some(i) => i < self.entries@.len() && entry_key(self.entries@[i as int]) == (
                    name@,
                    opt_slice_view(sub),
                ),
                None => !has_key(self.entries@, (name@, opt_slice_view(sub))),
            },
    {
        let mut i: usize = 0;
        while i < self.entries.len()
            invariant
                i <= self.entries.len(),
                forall|j: int|
                    0 <= j < i ==> entry_key(#[trigger] self.entries@[j]) != (
                        name@,
                        opt_slice_view(sub),
                    ),
            decreases self.entries.len() - i,
        {
            let entry = &self.entries[i];
            let same_name = bytes_eq(entry.name.as_slice(), name);
            if same_name && opt_bytes_eq(&entry.sub, sub) {
                return Some(i);
            }
            i = i + 1;
        }
        None
    }

    /// Binds `(name, sub)` to `addr`, replacing an earlier binding of it.
    pub fn insert(&mut self, name: Vec<u8>, sub: Option<Vec<u8>>, addr: u16)
        requires
            old(self).wf(),
        ensures
            final(self).wf(),
            final(self)@ == old(self)@.insert((name@, opt_name_view(sub)), addr),
    {
        let ghost key: LabelKey = (name@, opt_name_view(sub));
        let ghost before = self.entries@;
        match self.position(name.as_slice(), opt_as_slice(&sub)) {
            Some(i) => {
                self.entries[i] = LocationEntry { name, sub, addr };
                let ghost after = self.entries@;
                proof {
                    let ghost updated = table_of(before).insert(key, addr);
                    assert forall|q: LabelKey|
                        #![trigger table_of(after).dom().contains(q)]
                        #![trigger updated.dom().contains(q)]
                        table_of(after).dom().contains(q) == updated.dom().contains(q) && (
                        table_of(after).dom().contains(q) ==> table_of(after)[q] == updated[q]) by {
                        lemma_table_keys(after, q);
                        lemma_table_keys(before, q);
                        if has_key(before, q) {
                            let j = choose|j: int|
                                0 <= j < before.len() && entry_key(#[trigger] before[j]) == q;
                            lemma_table_value(after, j);
                        }
                        if has_key(after, q) {
                            let j = choose|j: int|
                                0 <= j < after.len() && entry_key(#[trigger] after[j]) == q;
                            lemma_table_value(before, j);
                        }
                    }
                }
            },
            None => {
                self.entries.push(LocationEntry { name, sub, addr });
                assert(self.entries@.drop_last() =~= before);
            },
        }
    }

    /// The address bound to `(name, sub)`, if there is one.
    pub fn get(&self, name: &[u8], sub: Option<&[u8]>) -> (addr: Option<u16>)
        requires
            self.wf(),
        ensures
            addr == (if self@.contains_key((name@, opt_slice_view(sub))) {
                Some(self@[(name@, opt_slice_view(sub))])
            } else {
                None
            }),
    {
        proof {
            lemma_table_keys(self.entries@, (name@, opt_slice_view(sub)));
        }
        match self.position(name, sub) {
            Some(i) => {
                proof {
                    lemma_table_value(self.entries@, i as int);
                }
                Some(self.entries[i].addr)
            },
            None => None,
        }
    }

    /// How many keys the table binds.
    pub fn len(&self) -> (len: usize)
        requires
            self.wf(),
        ensures
            self@.dom().finite(),
            len == self@.dom().len(),
    {
        proof {
            lemma_table_len(self.entries@);
        }
        self.entries.len()
    }
}

/// What the resolver has seen so far: the cursor, the most recently defined
/// label, and the addresses bound.
pub struct ResolveState {
    pub cursor: u16,
    pub parent: Option<Seq<u8>>,
    pub table: Map<LabelKey, u16>,
}

/// Where the resolver starts: at the program region, with nothing bound.
pub open spec fn resolve_start() -> ResolveState {
    ResolveState { cursor: PROGRAM_START, parent: None, table: Map::empty() }
}

/// The cursor after `item`, which must be neither a macro definition nor a
/// macro invocation. Emitted items move it by their width, wrapping at the end
/// of the address space; pads move it as they say; labels leave it alone.
pub open spec fn advance(cursor: u16, item: Item) -> u16 {
    match item {
        Item::Byte(_) => cursor.wrapping_add(1),
        Item::ZeroAddr(_) => cursor.wrapping_add(2),
        Item::ZeroSubAddr(_, _) => cursor.wrapping_add(2),
        Item::Addr(_) => cursor.wrapping_add(3),
        Item::SubAddr(_, _) => cursor.wrapping_add(3),
        Item::AbsPad(high, low) => short_of(high, low),
        Item::RelPad(high, low) => cursor.wrapping_add(short_of(high, low)),
        _ => cursor,
    }
}

/// One step of the resolver.
///
/// A label binds the cursor under its own name and becomes the parent of the
/// sub-labels that follow; a sub-label binds the cursor under its parent's
/// name and its own. Neither moves the cursor.
pub open spec fn resolve_step(state: ResolveState, item: Item) -> Result<ResolveState, UxnError> {
    match item {
        Item::Location(name) => Ok(
            ResolveState {
                cursor: state.cursor,
                parent: Some(name),
                table: state.table.insert((name, None), state.cursor),
            },
        ),
        Item::SubLocation(_, child) => match state.parent {
            Some(parent) => Ok(
                ResolveState {
                    cursor: state.cursor,
                    parent: state.parent,
                    table: state.table.insert((parent, Some(child)), state.cursor),
                },
            ),
            None => Err(UxnError::SubLabelWithoutParent),
        },
        Item::MacroDef(_, _) => Err(UxnError::UnexpandedMacro),
        Item::Macro(_) => Err(UxnError::UnexpandedMacro),
        _ => Ok(
            ResolveState {
                cursor: advance(state.cursor, item),
                parent: state.parent,
                table: state.table,
            },
        ),
    }
}

/// The resolver's state after the first `n` items, or the first error met
/// among them.
pub open spec fn resolve_prefix(items: Seq<Item>, n: nat) -> Result<ResolveState, UxnError>
    decreases n,
{
    if n == 0 {
        Ok(resolve_start())
    } else {
        match resolve_prefix(items, (n - 1) as nat) {
            Ok(state) => resolve_step(state, items[n - 1]),
            Err(e) => Err(e),
        }
    }
}

/// The location table of a program: every label and sub-label with the
/// address of the cursor where it stands.
pub open spec fn spec_resolve_locations(items: Seq<Item>) -> Result<Map<LabelKey, u16>, UxnError> {
    match resolve_prefix(items, items.len()) {
        Ok(state) => Ok(state.table),
        Err(e) => Err(e),
    }
}

/// First pass of the assembler: walks the items with a cursor that starts at
/// 0x0100 and binds each label and sub-label to the cursor's value.
pub fn resolve_locations(items: &[ROMItem]) -> (table: Result<LocationTable, UxnError>)
    ensures
        match spec_resolve_locations(items_view(items@)) {
            Ok(map) => table is Ok && table->Ok_0@ == map && table->Ok_0.wf(),
            Err(e) => table == Err::<LocationTable, UxnError>(e),
        },
{
    let ghost spec_items = items_view(items@);
    let mut table = LocationTable::new();
    let mut cursor: u16 = PROGRAM_START;
    let mut parent: Option<Vec<u8>> = None;
    let mut i: usize = 0;
    while i < items.len()
        invariant
            i <= items.len(),
            table.wf(),
            spec_items == items_view(items@),
            resolve_prefix(spec_items, i as nat) == Ok::<ResolveState, UxnError>(
                ResolveState { cursor, parent: opt_name_view(parent), table: table@ },
            ),
        decreases items.len() - i,
    {
        match &items[i] {
            ROMItem::Byte(_) => {
                cursor = cursor.wrapping_add(1);
            },
            ROMItem::Location(name) => {
                table.insert(clone_name(name), None, cursor);
                parent = Some(clone_name(name));
            },
            ROMItem::SubLocation(_, child) => {
                match &parent {
                    Some(p) => {
                        table.insert(clone_name(p), Some(clone_name(child)), cursor);
                    },
                    None => {
                        proof {
                            lemma_resolve_error_stays(spec_items, (i + 1) as nat, items.len() as nat);
                        }
                        return Err(UxnError::SubLabelWithoutParent);
                    },
                }
            },
            ROMItem::ZeroAddr(_) => {
                cursor = cursor.wrapping_add(2);
            },
            ROMItem::ZeroSubAddr(_, _) => {
                cursor = cursor.wrapping_add(2);
            },
            ROMItem::Addr(_) => {
                cursor = cursor.wrapping_add(3);
            },
            ROMItem::SubAddr(_, _) => {
                cursor = cursor.wrapping_add(3);
            },
            ROMItem::AbsPad(high, low) => {
                cursor = join_bytes(*high, *low);
            },
            ROMItem::RelPad(high, low) => {
                cursor = cursor.wrapping_add(join_bytes(*high, *low));
            },
            ROMItem::MacroDef(_, _) => {
                proof {
                    lemma_resolve_error_stays(spec_items, (i + 1) as nat, items.len() as nat);
                }
                return Err(UxnError::UnexpandedMacro);
            },
            ROMItem::Macro(_) => {
                proof {
                    lemma_resolve_error_stays(spec_items, (i + 1) as nat, items.len() as nat);
                }
                return Err(UxnError::UnexpandedMacro);
            },
        }
        i = i + 1;
    }
    Ok(table)
}

/// Once the resolver has failed on a prefix, it fails the same way on every
/// longer prefix.
pub proof fn lemma_resolve_error_stays(items: Seq<Item>, n: nat, m: nat)
    requires
        n <= m,
        resolve_prefix(items, n) is Err,
    ensures
        resolve_prefix(items, m) == resolve_prefix(items, n),
    decreases m,
{
    if n < m {
        lemma_resolve_error_stays(items, n, (m - 1) as nat);
    }
}

/// How many bytes an item puts into the image.
pub open spec fn width(item: Item) -> int {
    match item {
        Item::Byte(_) => 1,
        Item::ZeroAddr(_) => 2,
        Item::ZeroSubAddr(_, _) => 2,
        Item::Addr(_) => 3,
        Item::SubAddr(_, _) => 3,
        _ => 0,
    }
}

/// The bytes of an absolute reference to `key`: the short load, then the
/// address, high byte first.
pub open spec fn absolute_reference(table: Map<LabelKey, u16>, key: LabelKey) -> Result<
    Seq<u8>,
    UxnError,
> {
    if !table.contains_key(key) {
        Err(UxnError::UndefinedLabel)
    } else {
        Ok(seq![LIT2, high_byte(table[key]), low_byte(table[key])])
    }
}

/// The bytes of a zero-page reference to `key`: the byte load, then the low
/// byte of the address, which must lie in the zero page.
pub open spec fn zero_page_reference(table: Map<LabelKey, u16>, key: LabelKey) -> Result<
    Seq<u8>,
    UxnError,
> {
    if !table.contains_key(key) {
        Err(UxnError::UndefinedLabel)
    } else if table[key] > 0xff {
        Err(UxnError::AddressOutsideZeroPage)
    } else {
        Ok(seq![LIT, low_byte(table[key])])
    }
}

/// The bytes that an item puts into the image, given the location table.
pub open spec fn emitted(item: Item, table: Map<LabelKey, u16>) -> Result<Seq<u8>, UxnError> {
    match item {
        Item::Byte(b) => Ok(seq![b]),
        Item::ZeroAddr(name) => zero_page_reference(table, (name, None)),
        Item::ZeroSubAddr(parent, child) => zero_page_reference(table, (parent, Some(child))),
        Item::Addr(name) => absolute_reference(table, (name, None)),
        Item::SubAddr(parent, child) => absolute_reference(table, (parent, Some(child))),
        Item::MacroDef(_, _) => Err(UxnError::UnexpandedMacro),
        Item::Macro(_) => Err(UxnError::UnexpandedMacro),
        _ => Ok(Seq::empty()),
    }
}

/// Whether `width` bytes can be written from `cursor` on: none of them below
/// 0x0100, and none past the end of the address space, where the address
/// would wrap into the zero page.
pub open spec fn writable(cursor: u16, width: int) -> bool {
    PROGRAM_START <= cursor && cursor + width <= MEMORY_SIZE
}

/// `mem` with `bytes` stored from address `at` on.
pub open spec fn write_at(mem: Seq<u8>, at: int, bytes: Seq<u8>) -> Seq<u8> {
    Seq::new(
        mem.len(),
        |i: int|
            if at <= i < at + bytes.len() {
                bytes[i - at]
            } else {
                mem[i]
            },
    )
}

/// What the emitter has done so far: the cursor, the highest address written
/// (0x0100 before any write), and the memory.
pub struct EmitState {
    pub cursor: u16,
    pub max_written: u16,
    pub mem: Seq<u8>,
}

/// Where the emitter starts on a given memory.
pub open spec fn emit_start(mem: Seq<u8>) -> EmitState {
    EmitState { cursor: PROGRAM_START, max_written: PROGRAM_START, mem }
}

/// One step of the emitter.
///
/// Macro items are refused. An item that emits bytes is refused where those
/// bytes cannot be written, and then where its label is not bound or not
/// usable. Otherwise its bytes are stored at the cursor, and the cursor moves
/// as it does in the resolver.
pub open spec fn emit_step(state: EmitState, item: Item, table: Map<LabelKey, u16>) -> Result<
    EmitState,
    UxnError,
> {
    if item is MacroDef || item is Macro {
        Err(UxnError::UnexpandedMacro)
    } else if width(item) > 0 && !writable(state.cursor, width(item)) {
        Err(UxnError::ZeroPageWriteViolation)
    } else {
        match emitted(item, table) {
            Err(e) => Err(e),
            Ok(bytes) => Ok(
                EmitState {
                    cursor: advance(state.cursor, item),
                    max_written: if bytes.len() > 0 && state.cursor + bytes.len() - 1
                        > state.max_written {
                        (state.cursor + bytes.len() - 1) as u16
                    } else {
                        state.max_written
                    },
                    mem: write_at(state.mem, state.cursor as int, bytes),
                },
            ),
        }
    }
}

/// The emitter's run over the first `n` items: the state it reached, and the
/// error that stopped it, if one did. The state is the one before the item
/// that failed.
pub open spec fn emit_run(items: Seq<Item>, table: Map<LabelKey, u16>, start: EmitState, n: nat) -> (
    EmitState,
    Option<UxnError>,
)
    decreases n,
{
    if n == 0 {
        (start, None)
    } else {
        let (state, stopped) = emit_run(items, table, start, (n - 1) as nat);
        if stopped is Some {
            (state, stopped)
        } else {
            match emit_step(state, items[n - 1], table) {
                Ok(next) => (next, None),
                Err(e) => (state, Some(e)),
            }
        }
    }
}

/// Once the emitter has stopped, it stays where it stopped.
pub proof fn lemma_emit_stop_stays(
    items: Seq<Item>,
    table: Map<LabelKey, u16>,
    start: EmitState,
    n: nat,
    m: nat,
)
    requires
        n <= m,
        emit_run(items, table, start, n).1 is Some,
    ensures
        emit_run(items, table, start, m) == emit_run(items, table, start, n),
    decreases m,
{
    if n < m {
        lemma_emit_stop_stays(items, table, start, n, (m - 1) as nat);
    }
}

/// The image that the emitter's final state stands for: memory from 0x0100
/// through the highest address written.
pub open spec fn image_of(state: EmitState) -> Seq<u8> {
    state.mem.subrange(PROGRAM_START as int, state.max_written + 1)
}

/// Stores `bytes` in `mem` from `cursor` on.
fn store(mem: &mut [u8; 65536], cursor: u16, bytes: &[u8])
    requires
        writable(cursor, bytes@.len() as int),
    ensures
        final(mem)@ == write_at(old(mem)@, cursor as int, bytes@),
{
    let at: usize = cursor as usize;
    let mut k: usize = 0;
    while k < bytes.len()
        invariant
            k <= bytes.len(),
            at == cursor,
            at + bytes.len() <= 65536,
            mem@ == write_at(old(mem)@, at as int, bytes@.take(k as int)),
        decreases bytes.len() - k,
    {
        mem[at + k] = bytes[k];
        k = k + 1;
    }
}

/// Second pass of the assembler: resolves the locations of `items`, then
/// stores each item's bytes into `mem` at the cursor, which starts at 0x0100.
///
/// Returns the image: `mem` from 0x0100 through the highest address written.
/// When the resolver fails, `mem` is untouched; when the emitter fails, `mem`
/// holds what the items before the failing one stored.
pub fn write<'a>(items: &[ROMItem], mem: &'a mut [u8; 65536]) -> (image: Result<
    &'a [u8],
    UxnError,
>)
    ensures
        match spec_resolve_locations(items_view(items@)) {
            Err(e) => image == Err::<&[u8], UxnError>(e) && final(mem)@ == old(mem)@,
            Ok(table) => {
                let (state, stopped) = emit_run(
                    items_view(items@),
                    table,
                    emit_start(old(mem)@),
                    items@.len(),
                );
                &&& final(mem)@ == state.mem
                &&& match stopped {
                    Some(e) => image == Err::<&[u8], UxnError>(e),
                    None => image is Ok && image->Ok_0@ == image_of(state),
                }
            },
        },
{
    let ghost spec_items = items_view(items@);
    let ghost start = emit_start(mem@);
    let locations = match resolve_locations(items) {
        Ok(t) => t,
        Err(e) => {
            return Err(e);
        },
    };
    let ghost table = locations@;
    let mut cursor: u16 = PROGRAM_START;
    let mut max_written: u16 = PROGRAM_START;
    let mut i: usize = 0;
    while i < items.len()
        invariant
            i <= items.len(),
            spec_items == items_view(items@),
            table == locations@,
            locations.wf(),
            spec_resolve_locations(spec_items) == Ok::<Map<LabelKey, u16>, UxnError>(table),
            start == emit_start(old(mem)@),
            max_written >= PROGRAM_START,
            emit_run(spec_items, table, start, i as nat) == (
                EmitState { cursor, max_written, mem: mem@ },
                None::<UxnError>,
            ),
        decreases items.len() - i,
    {
        let ghost before = EmitState { cursor, max_written, mem: mem@ };
        proof {
            if emit_step(before, spec_items[i as int], table) is Err {
                lemma_emit_stop_stays(spec_items, table, start, (i + 1) as nat, items.len() as nat);
            }
        }
        let mut stored: usize = 0;
        match &items[i] {
            ROMItem::Byte(b) => {
                if cursor < PROGRAM_START {
                    return Err(UxnError::ZeroPageWriteViolation);
                }
                let bytes: [u8; 1] = [*b];
                assert(bytes@ =~= seq![*b]);
                store(mem, cursor, bytes.as_slice());
                stored = 1;
            },
            ROMItem::ZeroAddr(name) => {
                if cursor < PROGRAM_START || cursor > 0xfffe {
                    return Err(UxnError::ZeroPageWriteViolation);
                }
                match zero_page_bytes(&locations, name.as_slice(), None) {
                    Ok(bytes) => {
                        store(mem, cursor, bytes.as_slice());
                    },
                    Err(e) => {
                        return Err(e);
                    },
                }
                stored = 2;
            },
            ROMItem::ZeroSubAddr(parent, child) => {
                if cursor < PROGRAM_START || cursor > 0xfffe {
                    return Err(UxnError::ZeroPageWriteViolation);
                }
                match zero_page_bytes(&locations, parent.as_slice(), Some(child.as_slice())) {
                    Ok(bytes) => {
                        store(mem, cursor, bytes.as_slice());
                    },
                    Err(e) => {
                        return Err(e);
                    },
                }
                stored = 2;
            },
            ROMItem::Addr(name) => {
                if cursor < PROGRAM_START || cursor > 0xfffd {
                    return Err(UxnError::ZeroPageWriteViolation);
                }
                match absolute_bytes(&locations, name.as_slice(), None) {
                    Ok(bytes) => {
                        store(mem, cursor, bytes.as_slice());
                    },
                    Err(e) => {
                        return Err(e);
                    },
                }
                stored = 3;
            },
            ROMItem::SubAddr(parent, child) => {
                if cursor < PROGRAM_START || cursor > 0xfffd {
                    return Err(UxnError::ZeroPageWriteViolation);
                }
                match absolute_bytes(&locations, parent.as_slice(), Some(child.as_slice())) {
                    Ok(bytes) => {
                        store(mem, cursor, bytes.as_slice());
                    },
                    Err(e) => {
                        return Err(e);
                    },
                }
                stored = 3;
            },
            ROMItem::AbsPad(high, low) => {
                assert(mem@ =~= write_at(mem@, cursor as int, Seq::empty()));
                cursor = join_bytes(*high, *low);
            },
            ROMItem::RelPad(high, low) => {
                assert(mem@ =~= write_at(mem@, cursor as int, Seq::empty()));
                cursor = cursor.wrapping_add(join_bytes(*high, *low));
            },
            ROMItem::Location(_) => {
                assert(mem@ =~= write_at(mem@, cursor as int, Seq::empty()));
            },
            ROMItem::SubLocation(_, _) => {
                assert(mem@ =~= write_at(mem@, cursor as int, Seq::empty()));
            },
            ROMItem::MacroDef(_, _) => {
                return Err(UxnError::UnexpandedMacro);
            },
            ROMItem::Macro(_) => {
                return Err(UxnError::UnexpandedMacro);
            },
        }
        if stored > 0 {
            let last: u16 = (cursor as usize + stored - 1) as u16;
            if last > max_written {
                max_written = last;
            }
            cursor = cursor.wrapping_add(stored as u16);
        }
        i = i + 1;
    }
    let whole = mem.as_slice();
    Ok(vstd::slice::slice_subrange(whole, 0x0100, max_written as usize + 1))
}

/// The bytes of an absolute reference, from the table.
fn absolute_bytes(table: &LocationTable, name: &[u8], sub: Option<&[u8]>) -> (bytes: Result<
    [u8; 3],
    UxnError,
>)
    requires
        table.wf(),
    ensures
        match absolute_reference(table@, (name@, opt_slice_view(sub))) {
            Ok(b) => bytes is Ok && bytes->Ok_0@ == b,
            Err(e) => bytes == Err::<[u8; 3], UxnError>(e),
        },
{
    match table.get(name, sub) {
        Some(addr) => {
            let (high, low) = split_short(addr);
            let bytes: [u8; 3] = [LIT2, high, low];
            Ok(bytes)
        },
        None => Err(UxnError::UndefinedLabel),
    }
}

/// The bytes of a zero-page reference, from the table.
fn zero_page_bytes(table: &LocationTable, name: &[u8], sub: Option<&[u8]>) -> (bytes: Result<
    [u8; 2],
    UxnError,
>)
    requires
        table.wf(),
    ensures
        match zero_page_reference(table@, (name@, opt_slice_view(sub))) {
            Ok(b) => bytes is Ok && bytes->Ok_0@ == b,
            Err(e) => bytes == Err::<[u8; 2], UxnError>(e),
        },
{
    match table.get(name, sub) {
        Some(addr) => {
            let (high, low) = split_short(addr);
            if high > 0 {
                return Err(UxnError::AddressOutsideZeroPage);
            }
            let bytes: [u8; 2] = [LIT, low];
            Ok(bytes)
        },
        None => Err(UxnError::UndefinedLabel),
    }
}

/// What the macro expander has seen so far: the macros defined, and the
/// items put out.
pub struct ExpandState {
    pub macros: Map<Seq<u8>, Seq<Item>>,
    pub out: Seq<Item>,
}

/// One step of the macro expander.
///
/// A definition records its body under its name, in place of an earlier body
/// of that name, and puts nothing out. An invocation puts out the body
/// recorded under its name, as it was written: macro items inside the body are
/// not expanded. Every other item is put out as it is.
pub open spec fn expand_step(state: ExpandState, item: Item) -> Result<ExpandState, UxnError> {
    match item {
        Item::MacroDef(name, body) => Ok(
            ExpandState { macros: state.macros.insert(name, body), out: state.out },
        ),
        Item::Macro(name) => if state.macros.contains_key(name) {
            Ok(ExpandState { macros: state.macros, out: state.out + state.macros[name] })
        } else {
            Err(UxnError::UndefinedMacro)
        },
        _ => Ok(ExpandState { macros: state.macros, out: state.out.push(item) }),
    }
}

/// The expander's state after the first `n` items, or the first error met
/// among them.
pub open spec fn expand_prefix(items: Seq<Item>, n: nat) -> Result<ExpandState, UxnError>
    decreases n,
{
    if n == 0 {
        Ok(ExpandState { macros: Map::empty(), out: Seq::empty() })
    } else {
        match expand_prefix(items, (n - 1) as nat) {
            Ok(state) => expand_step(state, items[n - 1]),
            Err(e) => Err(e),
        }
    }
}

/// The items of a program with its macros expanded.
pub open spec fn spec_apply_macros(items: Seq<Item>) -> Result<Seq<Item>, UxnError> {
    match expand_prefix(items, items.len()) {
        Ok(state) => Ok(state.out),
        Err(e) => Err(e),
    }
}

/// Once the expander has failed on a prefix, it fails the same way on every
/// longer prefix.
pub proof fn lemma_expand_error_stays(items: Seq<Item>, n: nat, m: nat)
    requires
        n <= m,
        expand_prefix(items, n) is Err,
    ensures
        expand_prefix(items, m) == expand_prefix(items, n),
    decreases m,
{
    if n < m {
        lemma_expand_error_stays(items, n, (m - 1) as nat);
    }
}

/// Appends a copy of each item of `body` to `out`.
fn append_copy(out: &mut Vec<ROMItem>, body: &Vec<ROMItem>)
    ensures
        items_view(final(out)@) == items_view(old(out)@) + items_view(body@),
{
    let mut k: usize = 0;
    while k < body.len()
        invariant
            k <= body.len(),
            items_view(out@) == items_view(old(out)@) + items_view(body@.take(k as int)),
        decreases body.len() - k,
    {
        let ghost before = out@;
        out.push(clone_item(&body[k]));
        assert(items_view(out@) =~= items_view(before).push(item_view(body@[k as int])));
        k = k + 1;
    }
}

/// Expands the macros of a program in one pass over its items.
///
/// A macro must be defined before it is invoked. The body of a macro is copied
/// as it was written, so a macro item inside a body stays in the output.
pub fn apply_macros(items: &[ROMItem]) -> (expanded: Result<Vec<ROMItem>, UxnError>)
    ensures
        match spec_apply_macros(items_view(items@)) {
            Ok(out) => expanded is Ok && items_view(expanded->Ok_0@) == out,
            Err(e) => expanded == Err::<Vec<ROMItem>, UxnError>(e),
        },
{
    let ghost spec_items = items_view(items@);
    let mut macros = State::new();
    let mut out: Vec<ROMItem> = Vec::new();
    let mut i: usize = 0;
    assert(items_view(out@) =~= Seq::<Item>::empty());
    while i < items.len()
        invariant
            i <= items.len(),
            spec_items == items_view(items@),
            expand_prefix(spec_items, i as nat) == Ok::<ExpandState, UxnError>(
                ExpandState { macros: macros@, out: items_view(out@) },
            ),
        decreases items.len() - i,
    {
        match &items[i] {
            ROMItem::MacroDef(name, body) => {
                proof {
                    lemma_macro_def_view(*name, *body);
                }
                macros.define(clone_name(name), clone_items(body));
            },
            ROMItem::Macro(name) => {
                match macros.get(name.as_slice()) {
                    Some(body) => {
                        append_copy(&mut out, body);
                    },
                    None => {
                        proof {
                            lemma_expand_error_stays(
                                spec_items,
                                (i + 1) as nat,
                                items.len() as nat,
                            );
                        }
                        return Err(UxnError::UndefinedMacro);
                    },
                }
            },
            other => {
                let ghost before = out@;
                out.push(clone_item(other));
                assert(items_view(out@) =~= items_view(before).push(item_view(*other)));
            },
        }
        i = i + 1;
    }
    Ok(out)
}

/// The image that the two passes make of a program on a given memory.
pub open spec fn spec_write(items: Seq<Item>, mem: Seq<u8>) -> Result<Seq<u8>, UxnError> {
    match spec_resolve_locations(items) {
        Err(e) => Err(e),
        Ok(table) => {
            let (state, stopped) = emit_run(items, table, emit_start(mem), items.len());
            match stopped {
                Some(e) => Err(e),
                None => Ok(image_of(state)),
            }
        },
    }
}

/// A memory of zeros.
pub open spec fn blank_memory() -> Seq<u8> {
    Seq::new(MEMORY_SIZE as nat, |i: int| 0u8)
}

/// The image of a source text: what parsing, macro expansion and the two
/// passes make of it on a memory of zeros. Each stage must succeed, and the
/// parser must take the whole text.
pub open spec fn spec_assemble(source: Seq<u8>) -> Result<Seq<u8>, UxnError> {
    let (items, end, _) = spec_tal(source, 0, Map::empty());
    if end != source.len() {
        Err(UxnError::SyntaxError { position: end as usize })
    } else {
        match spec_apply_macros(items) {
            Err(e) => Err(e),
            Ok(expanded) => spec_write(expanded, blank_memory()),
        }
    }
}

/// Assembles a source text into a binary image, to be loaded at 0x0100.
pub fn assemble(source: &[u8]) -> (image: Result<Vec<u8>, UxnError>)
    ensures
        match spec_assemble(source@) {
            Ok(bytes) => image is Ok && image->Ok_0@ == bytes,
            Err(e) => image == Err::<Vec<u8>, UxnError>(e),
        },
{
    let parsed = match parse(Stream::new(source)) {
        Ok(items) => items,
        Err(e) => {
            return Err(e);
        },
    };
    let expanded = match apply_macros(parsed.as_slice()) {
        Ok(items) => items,
        Err(e) => {
            return Err(e);
        },
    };
    let mut mem: [u8; 65536] = [0u8; 65536];
    assert(mem@ =~= blank_memory());
    match write(expanded.as_slice(), &mut mem) {
        Ok(bytes) => Ok(vstd::slice::slice_to_vec(bytes)),
        Err(e) => Err(e),
    }
}

/// The cursor moves by what is emitted: an item that emits bytes emits as
/// many as its width, and moves the cursor by that width in both passes.
pub proof fn lemma_width_is_emitted(item: Item, table: Map<LabelKey, u16>, cursor: u16)
    requires
        !(item is MacroDef),
        !(item is Macro),
        !(item is AbsPad),
        !(item is RelPad),
    ensures
        advance(cursor, item) == cursor.wrapping_add(width(item) as u16),
        emitted(item, table) matches Ok(bytes) ==> bytes.len() == width(item),
{
}

/// The two passes walk alike: where both get through the first `n` items,
/// the emitter's cursor is where the resolver's cursor was, so a label stands
/// for the address at which the next byte after it is stored.
pub proof fn lemma_passes_agree(
    items: Seq<Item>,
    table: Map<LabelKey, u16>,
    mem: Seq<u8>,
    n: nat,
)
    requires
        resolve_prefix(items, n) is Ok,
        emit_run(items, table, emit_start(mem), n).1 is None,
    ensures
        emit_run(items, table, emit_start(mem), n).0.cursor == resolve_prefix(
            items,
            n,
        )->Ok_0.cursor,
    decreases n,
{
    if n > 0 {
        lemma_passes_agree(items, table, mem, (n - 1) as nat);
    }
}

/// The zero page is protected: whatever the items, and whether or not the
/// emitter gets through them, it leaves every byte below 0x0100 as it was,
/// and the memory as long as it was.
pub proof fn lemma_zero_page_untouched(
    items: Seq<Item>,
    table: Map<LabelKey, u16>,
    mem: Seq<u8>,
    n: nat,
)
    ensures
        emit_run(items, table, emit_start(mem), n).0.mem.len() == mem.len(),
        forall|a: int|
            0 <= a < PROGRAM_START && a < mem.len() ==> emit_run(
                items,
                table,
                emit_start(mem),
                n,
            ).0.mem[a] == mem[a],
    decreases n,
{
    if n > 0 {
        lemma_zero_page_untouched(items, table, mem, (n - 1) as nat);
    }
}

/// Whether an item is a macro definition or a macro invocation.
pub open spec fn is_macro_item(item: Item) -> bool {
    item is MacroDef || item is Macro
}

/// Whether no item of a run is a macro item.
pub open spec fn is_plain(items: Seq<Item>) -> bool {
    forall|i: int| 0 <= i < items.len() ==> !is_macro_item(#[trigger] items[i])
}

/// Whether the body of every macro defined in a run of items holds no macro
/// item.
pub open spec fn bodies_are_plain(items: Seq<Item>) -> bool {
    forall|i: int|
        0 <= i < items.len() ==> (#[trigger] items[i] matches Item::MacroDef(_, body)
            ==> is_plain(body))
}

/// Where the body of no macro holds a macro item, neither the output nor any
/// recorded body holds one after any number of steps.
proof fn lemma_expansion_prefix_is_plain(items: Seq<Item>, n: nat)
    requires
        n <= items.len(),
        bodies_are_plain(items),
        expand_prefix(items, n) is Ok,
    ensures
        is_plain(expand_prefix(items, n)->Ok_0.out),
        forall|name: Seq<u8>|
            expand_prefix(items, n)->Ok_0.macros.contains_key(name) ==> is_plain(
                #[trigger] expand_prefix(items, n)->Ok_0.macros[name],
            ),
    decreases n,
{
    if n > 0 {
        lemma_expansion_prefix_is_plain(items, (n - 1) as nat);
    }
}

/// Expansion removes the macros: where the body of no macro holds a macro
/// item, no macro definition and no macro invocation is left in the expanded
/// program.
pub proof fn lemma_expansion_is_plain(items: Seq<Item>)
    requires
        bodies_are_plain(items),
        spec_apply_macros(items) is Ok,
    ensures
        is_plain(spec_apply_macros(items)->Ok_0),
{
    lemma_expansion_prefix_is_plain(items, items.len());
}

} // verus!
