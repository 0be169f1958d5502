//! The 80-column card: its columns, its kind, and its text and binary forms.

use crate::bits::{bit_at, byte_bit, lemma_masked_bit, pack_bits, stream_bit};
use crate::ebcdic::{ebcdic_of_rows, ebcdic_to_hollerith, hollerith_to_ebcdic};
use crate::formats::{
    binary_columns, card_bits, card_text, dense_bytes, dense_columns, dense_slots, ebcdic_bytes,
    ebcdic_column, ebcdic_columns, legacy_columns, legacy_slots, text_columns, BinaryFormat,
};
use crate::hollerith::{
    char_of_rows, char_to_hollerith, decoded_char, encoded_char, hollerith_to_char, HollerithCode,
};
use crate::rows::{positional, rows_of_slots};
use crate::text::ascii_upper;
use vstd::prelude::*;
use vstd::std_specs::cmp::PartialEqSpec;
use vstd::std_specs::iter::IteratorSpec;

verus! {

/// One column of a card: its punch pattern, and the character printed above
/// it where the column was keyed as text.
#[derive(Debug)]
pub struct Column {
    pub punches: HollerithCode,
    pub printed_char: Option<char>,
}

impl PartialEq for Column {
    fn eq(&self, other: &Self) -> (equal: bool) {
        self.punches == other.punches && self.printed_char == other.printed_char
    }
}

impl vstd::std_specs::cmp::PartialEqSpecImpl for Column {
    open spec fn obeys_eq_spec() -> bool {
        true
    }

    /// Two columns are equal when they hold the same rows and the same
    /// printed character.
    open spec fn eq_spec(&self, other: &Self) -> bool {
        self@ == other@
    }
}

impl Eq for Column {}

/// What a column holds: its punched rows and its printed character.
#[verifier::ext_equal]
pub struct ColumnView {
    pub punches: Seq<u8>,
    pub printed_char: Option<char>,
}

impl View for Column {
    type V = ColumnView;

    open spec fn view(&self) -> ColumnView {
        ColumnView { punches: self.punches@, printed_char: self.printed_char }
    }
}

/// The column with no punch and no printed character.
pub open spec fn blank_column() -> ColumnView {
    ColumnView { punches: Seq::empty(), printed_char: None }
}

/// The column that keying `c` gives: the pattern that `c` is encoded to, and
/// the upper-case form of `c` printed above it.
pub open spec fn typed_column(c: char) -> ColumnView {
    ColumnView { punches: encoded_char(c), printed_char: Some(ascii_upper(c)) }
}

/// The column with the given punched rows and nothing printed.
pub open spec fn punched_column(rows: Seq<u8>) -> ColumnView {
    ColumnView { punches: rows, printed_char: None }
}

impl Clone for Column {
    fn clone(&self) -> (copy: Self)
        ensures
            copy@ == self@,
    {
        Column { punches: self.punches.clone(), printed_char: self.printed_char }
    }
}

impl Column {
    /// A blank column.
    pub fn new() -> (column: Column)
        ensures
            column@ == blank_column(),
    {
        Column { punches: HollerithCode::empty(), printed_char: None }
    }

    /// The column that keying `c` gives. A character that the keypunch cannot
    /// punch leaves the column unpunched, but is still printed.
    pub fn from_char(c: char) -> (column: Column)
        ensures
            column@ == typed_column(c),
            column.punches.well_formed(),
    {
        let upper_c = c.to_ascii_uppercase();
        let punches = match char_to_hollerith(upper_c) {
            Some(code) => code,
            None => HollerithCode::empty(),
        };
        Column { punches, printed_char: Some(upper_c) }
    }

    /// The column with the given pattern and nothing printed.
    pub fn from_hollerith(code: HollerithCode) -> (column: Column)
        ensures
            column@ == punched_column(code@),
            column.punches == code,
    {
        Column { punches: code, printed_char: None }
    }

    /// The character of the column's pattern, whatever is printed above it.
    pub fn to_char(&self) -> (found: Option<char>)
        ensures
            found == char_of_rows(self@.punches),
    {
        hollerith_to_char(&self.punches)
    }

    /// Whether the column has no punch.
    pub fn is_blank(&self) -> (blank: bool)
        ensures
            blank == (self@.punches.len() == 0),
    {
        self.punches.rows.is_empty()
    }
}

impl Default for Column {
    fn default() -> (column: Column)
        ensures
            column@ == blank_column(),
    {
        Column::new()
    }
}

/// The kind of a card. It says how the card was made and whether its printed
/// characters are meant to be shown; every operation works on both kinds.
#[derive(Debug, Clone, Copy, PartialEq, Eq, Structural)]
pub enum CardType {
    /// Keyed as text; columns carry printed characters.
    Text,
    /// Raw punch data; nothing is printed.
    Binary,
}

/// What a card holds: its eighty columns and its kind.
#[verifier::ext_equal]
pub struct CardView {
    pub columns: Seq<ColumnView>,
    pub card_type: CardType,
}

/// Eighty blank columns.
pub open spec fn blank_columns() -> Seq<ColumnView> {
    Seq::new(80, |i: int| blank_column())
}

/// The number of columns that have at least one punch.
pub open spec fn punched_count(columns: Seq<ColumnView>) -> nat
    decreases columns.len(),
{
    if columns.len() == 0 {
        0
    } else {
        punched_count(columns.drop_last()) + if columns.last().punches.len() > 0 {
            1nat
        } else {
            0nat
        }
    }
}

/// The message of the error for a column index of 80 or more.
pub const INDEX_OUT_OF_RANGE: &'static str = "Column index out of range";

/// The views of a list of columns.
pub open spec fn column_views(columns: Seq<Column>) -> Seq<ColumnView> {
    columns.map_values(|c: Column| c@)
}

/// Eighty blank columns.
fn blank_card_columns() -> (columns: Vec<Column>)
    ensures
        columns@.len() == 80,
        forall|k: int| 0 <= k < 80 ==> (#[trigger] columns@[k])@ == blank_column(),
        column_views(columns@) == blank_columns(),
{
    let mut columns: Vec<Column> = Vec::with_capacity(80);
    let mut i: usize = 0;
    while i < 80
        invariant
            i <= 80,
            columns@.len() == i,
            forall|k: int| 0 <= k < i ==> columns@[k]@ == blank_column(),
        decreases 80 - i,
    {
        columns.push(Column::new());
        i += 1;
    }
    proof {
        assert(column_views(columns@) =~= blank_columns());
    }
    columns
}

/// The columns of a dense buffer.
fn read_dense(data: &[u8]) -> (columns: Vec<Column>)
    requires
        data@.len() == 108,
    ensures
        columns@.len() == 80,
        column_views(columns@) == dense_columns(data@),
{
    let mut columns = blank_card_columns();
    let mut col_idx: usize = 0;
    while col_idx < 72
        invariant
            col_idx <= 72,
            data@.len() == 108,
            columns@.len() == 80,
            forall|k: int|
                0 <= k < col_idx ==> columns@[k]@ == punched_column(
                    rows_of_slots(dense_slots(data@, k)),
                ),
            forall|k: int| col_idx <= k < 80 ==> columns@[k]@ == blank_column(),
        decreases 72 - col_idx,
    {
        let mut punch_array = [false; 12];
        let mut slot: usize = 0;
        while slot < 12
            invariant
                slot <= 12,
                col_idx < 72,
                data@.len() == 108,
                forall|k: int|
                    0 <= k < slot ==> punch_array@[k] == stream_bit(data@, 12 * col_idx + k),
            decreases 12 - slot,
        {
            punch_array[slot] = bit_at(data, col_idx * 12 + slot);
            slot += 1;
        }
        proof {
            assert(punch_array@ =~= dense_slots(data@, col_idx as int));
        }
        columns[col_idx] = Column::from_hollerith(HollerithCode::from_array(punch_array));
        col_idx += 1;
    }
    proof {
        assert(column_views(columns@) =~= dense_columns(data@));
    }
    columns
}

/// The columns of a legacy buffer.
fn read_legacy(data: &[u8]) -> (columns: Vec<Column>)
    ensures
        columns@.len() == 80,
        column_views(columns@) == legacy_columns(data@),
{
    let mut columns = blank_card_columns();
    let count: usize = if data.len() < 80 {
        data.len()
    } else {
        80
    };
    let mut i: usize = 0;
    while i < count
        invariant
            i <= count <= 80,
            count <= data@.len(),
            columns@.len() == 80,
            forall|k: int|
                0 <= k < i ==> columns@[k]@ == punched_column(
                    rows_of_slots(legacy_slots(data@[k])),
                ),
            forall|k: int| i <= k < 80 ==> columns@[k]@ == blank_column(),
        decreases count - i,
    {
        let byte = data[i];
        let mut punch_array = [false; 12];
        let mut bit: usize = 0;
        while bit < 8
            invariant
                bit <= 8,
                forall|k: int| 0 <= k < bit ==> punch_array@[k] == byte_bit(byte, k),
                forall|k: int| bit <= k < 12 ==> !punch_array@[k],
            decreases 8 - bit,
        {
            proof {
                lemma_masked_bit(byte, bit as u8);
            }
            punch_array[bit] = (byte & (1u8 << bit)) != 0;
            bit += 1;
        }
        proof {
            assert(punch_array@ =~= legacy_slots(byte));
        }
        columns[i] = Column::from_hollerith(HollerithCode::from_array(punch_array));
        i += 1;
    }
    proof {
        assert(column_views(columns@) =~= legacy_columns(data@));
    }
    columns
}

/// An 80-column punch card.
#[derive(Debug)]
pub struct PunchCard {
    columns: Vec<Column>,
    card_type: CardType,
}

impl PartialEq for PunchCard {
    fn eq(&self, other: &Self) -> (equal: bool) {
        proof {
            use_type_invariant(self);
            use_type_invariant(other);
        }
        let equal = self.card_type == other.card_type && self.columns == other.columns;
        proof {
            if equal {
                assert(self@.columns =~= other@.columns);
            } else if self.card_type == other.card_type {
                let k = choose|k: int|
                    0 <= k < 80 && !(#[trigger] self.columns@[k]).eq_spec(&other.columns@[k]);
                assert(self@.columns[k] != other@.columns[k]);
            }
        }
        equal
    }
}

impl vstd::std_specs::cmp::PartialEqSpecImpl for PunchCard {
    open spec fn obeys_eq_spec() -> bool {
        true
    }

    /// Two cards are equal when they are of the same kind and hold the same
    /// eighty columns.
    open spec fn eq_spec(&self, other: &Self) -> bool {
        self@ == other@
    }
}

impl Eq for PunchCard {}

impl View for PunchCard {
    type V = CardView;

    closed spec fn view(&self) -> CardView {
        CardView { columns: Seq::new(80, |i: int| self.columns@[i]@), card_type: self.card_type }
    }
}

impl Clone for PunchCard {
    fn clone(&self) -> (copy: Self)
        ensures
            copy@ == self@,
    {
        proof {
            use_type_invariant(self);
        }
        let mut columns: Vec<Column> = Vec::with_capacity(80);
        let mut i: usize = 0;
        while i < 80
            invariant
                i <= 80,
                self.columns@.len() == 80,
                columns@.len() == i,
                forall|k: int| 0 <= k < i ==> columns@[k]@ == self.columns@[k]@,
            decreases 80 - i,
        {
            columns.push(self.columns[i].clone());
            i += 1;
        }
        let copy = PunchCard { columns, card_type: self.card_type };
        proof {
            assert(copy@.columns =~= self@.columns);
        }
        copy
    }
}

impl PunchCard {
    #[verifier::type_invariant]
    spec fn eighty_columns(&self) -> bool {
        self.columns@.len() == 80
    }

    /// Every card has exactly eighty columns.
    pub proof fn lemma_eighty_columns(&self)
        ensures
            self@.columns.len() == 80,
    {
    }

    /// A blank card of the given kind.
    pub fn new(card_type: CardType) -> (card: PunchCard)
        ensures
            card@ == (CardView { columns: blank_columns(), card_type }),
    {
        PunchCard::assemble(blank_card_columns(), card_type)
    }

    /// The card with the given eighty columns.
    fn assemble(columns: Vec<Column>, card_type: CardType) -> (card: PunchCard)
        requires
            columns@.len() == 80,
        ensures
            card@ == (CardView { columns: column_views(columns@), card_type }),
    {
        let card = PunchCard { columns, card_type };
        proof {
            assert(card@.columns =~= column_views(columns@));
        }
        card
    }

    /// A text card keyed from `text`: each of the first eighty characters
    /// gives one column; what follows them is dropped.
    pub fn from_text(text: &str) -> (card: PunchCard)
        ensures
            card@ == (CardView { columns: text_columns(text@), card_type: CardType::Text }),
    {
        let mut columns = blank_card_columns();
        let mut chars = text.chars();
        let mut i: usize = 0;
        while i < 80
            invariant
                i <= 80,
                i <= text@.len(),
                chars.remaining() == text@.skip(i as int),
                columns@.len() == 80,
                forall|k: int| 0 <= k < i ==> columns@[k]@ == typed_column(text@[k]),
                forall|k: int| i <= k < 80 ==> columns@[k]@ == blank_column(),
            ensures
                i <= 80,
                i <= text@.len(),
                i < 80 ==> i == text@.len(),
                columns@.len() == 80,
                forall|k: int| 0 <= k < i ==> columns@[k]@ == typed_column(text@[k]),
                forall|k: int| i <= k < 80 ==> columns@[k]@ == blank_column(),
            decreases 80 - i,
        {
            match chars.next() {
                Some(c) => {
                    proof {
                        assert(text@.skip(i as int).drop_first() =~= text@.skip(i + 1));
                    }
                    columns[i] = Column::from_char(c);
                    i += 1;
                },
                None => {
                    break ;
                },
            }
        }
        proof {
            assert(column_views(columns@) =~= text_columns(text@));
        }
        PunchCard::assemble(columns, CardType::Text)
    }

    /// A binary card read from a buffer. A buffer of exactly 108 bytes is the
    /// dense format: twelve bits for each of the columns 0 to 71, least
    /// significant bit first, the last eight columns blank. A buffer of any
    /// other length is the legacy format: one byte for each of the first
    /// eighty columns, its eight bits the first eight slots.
    pub fn from_binary(data: &[u8]) -> (card: PunchCard)
        ensures
            card@ == (CardView { columns: binary_columns(data@), card_type: CardType::Binary }),
    {
        let columns = match BinaryFormat::of_length(data.len()) {
            BinaryFormat::Dense => read_dense(data),
            BinaryFormat::Legacy => read_legacy(data),
        };
        PunchCard::assemble(columns, CardType::Binary)
    }

    /// The dense format of the card: 108 bytes that hold the twelve slots of
    /// each of the columns 0 to 71, least significant bit first. The last
    /// eight columns and the printed characters are not written.
    pub fn to_binary(&self) -> (data: Vec<u8>)
        ensures
            data@ == dense_bytes(self@.columns),
            data@.len() == 108,
    {
        proof {
            use_type_invariant(self);
        }
        let mut bit_buffer: Vec<bool> = Vec::with_capacity(864);
        let mut i: usize = 0;
        while i < 72
            invariant
                i <= 72,
                self.columns@.len() == 80,
                bit_buffer@.len() == 12 * i,
                forall|m: int|
                    0 <= m < 12 * i ==> bit_buffer@[m] == positional(
                        self.columns@[m / 12]@.punches,
                    )[m % 12],
            decreases 72 - i,
        {
            let punches = self.columns[i].punches.as_array();
            let mut k: usize = 0;
            while k < 12
                invariant
                    k <= 12,
                    i < 72,
                    self.columns@.len() == 80,
                    punches@ == positional(self.columns@[i as int]@.punches),
                    bit_buffer@.len() == 12 * i + k,
                    forall|m: int|
                        0 <= m < 12 * i + k ==> bit_buffer@[m] == positional(
                            self.columns@[m / 12]@.punches,
                        )[m % 12],
                decreases 12 - k,
            {
                bit_buffer.push(punches[k]);
                k += 1;
            }
            i += 1;
        }
        proof {
            assert(bit_buffer@ =~= card_bits(self@.columns));
        }
        pack_bits(&bit_buffer)
    }

    /// The EBCDIC form of the card: one byte for each of the eighty columns.
    pub fn to_ebcdic(&self) -> (data: Vec<u8>)
        ensures
            data@ == ebcdic_bytes(self@.columns),
            data@.len() == 80,
    {
        proof {
            use_type_invariant(self);
        }
        let mut data: Vec<u8> = Vec::with_capacity(80);
        let mut i: usize = 0;
        while i < 80
            invariant
                i <= 80,
                self.columns@.len() == 80,
                data@.len() == i,
                forall|k: int| 0 <= k < i ==> data@[k] == ebcdic_of_rows(self.columns@[k]@.punches),
            decreases 80 - i,
        {
            data.push(hollerith_to_ebcdic(&self.columns[i].punches));
            i += 1;
        }
        proof {
            assert(data@ =~= ebcdic_bytes(self@.columns));
        }
        data
    }

    /// A text card read from EBCDIC bytes: each of the first eighty bytes
    /// gives one column. The printed character is taken from the byte itself,
    /// not from its pattern.
    pub fn from_ebcdic(data: &[u8]) -> (card: PunchCard)
        ensures
            card@ == (CardView { columns: ebcdic_columns(data@), card_type: CardType::Text }),
    {
        let mut columns = blank_card_columns();
        let count: usize = if data.len() < 80 {
            data.len()
        } else {
            80
        };
        let mut i: usize = 0;
        while i < count
            invariant
                i <= count <= 80,
                count <= data@.len(),
                columns@.len() == 80,
                forall|k: int| 0 <= k < i ==> columns@[k]@ == ebcdic_column(data@[k]),
                forall|k: int| i <= k < 80 ==> columns@[k]@ == blank_column(),
            decreases count - i,
        {
            let ebcdic_byte = data[i];
            let hollerith = ebcdic_to_hollerith(ebcdic_byte);
            // 0x30, 0x41, 0x4A and 0x53 are the ASCII codes of `0`, `A`, `J` and `S`.
            let printed_char = if ebcdic_byte == 0x40 {
                Some(' ')
            } else if 0xF0 <= ebcdic_byte && ebcdic_byte <= 0xF9 {
                Some((0x30u8 + (ebcdic_byte - 0xF0)) as char)
            } else if 0xC1 <= ebcdic_byte && ebcdic_byte <= 0xC9 {
                Some((0x41u8 + (ebcdic_byte - 0xC1)) as char)
            } else if 0xD1 <= ebcdic_byte && ebcdic_byte <= 0xD9 {
                Some((0x4Au8 + (ebcdic_byte - 0xD1)) as char)
            } else if 0xE2 <= ebcdic_byte && ebcdic_byte <= 0xE9 {
                Some((0x53u8 + (ebcdic_byte - 0xE2)) as char)
            } else {
                None
            };
            columns[i] = Column { punches: hollerith, printed_char };
            i += 1;
        }
        proof {
            assert(column_views(columns@) =~= ebcdic_columns(data@));
        }
        PunchCard::assemble(columns, CardType::Text)
    }

    /// The kind of the card.
    pub fn card_type(&self) -> (card_type: CardType)
        ensures
            card_type == self@.card_type,
    {
        self.card_type
    }

    /// The column at `index`, or `None` where `index` is 80 or more.
    pub fn get_column(&self, index: usize) -> (column: Option<&Column>)
        ensures
            index < 80 ==> (column matches Some(c) && c@ == self@.columns[index as int]),
            index >= 80 ==> column is None,
    {
        proof {
            use_type_invariant(self);
        }
        if index < self.columns.len() {
            Some(&self.columns[index])
        } else {
            None
        }
    }

    /// The column at `index` for writing, or `None` where `index` is 80 or
    /// more. What the caller leaves in the column is what the card then holds
    /// there; nothing else changes.
    pub fn get_column_mut(&mut self, index: usize) -> (column: Option<&mut Column>)
        ensures
            index >= 80 ==> column is None && final(self)@ == old(self)@,
            index < 80 ==> column is Some && (*column.unwrap())@ == old(self)@.columns[index as int]
                && final(self)@.columns == old(self)@.columns.update(
                index as int,
                (*final(column.unwrap()))@,
            ) && final(self)@.card_type == old(self)@.card_type,
    {
        proof {
            use_type_invariant(&*self);
        }
        if index < self.columns.len() {
            Some(&mut self.columns[index])
        } else {
            None
        }
    }

    /// Keys `c` into the column at `index`. An index of 80 or more is
    /// refused, and the card stays as it was.
    pub fn set_column_char(&mut self, index: usize, c: char) -> (done: Result<(), &'static str>)
        ensures
            index < 80 ==> done is Ok && final(self)@ == (CardView {
                columns: old(self)@.columns.update(index as int, typed_column(c)),
                card_type: old(self)@.card_type,
            }),
            index >= 80 ==> (done matches Err(message) && message@ == INDEX_OUT_OF_RANGE@)
                && final(self)@ == old(self)@,
    {
        proof {
            use_type_invariant(&*self);
        }
        if index >= 80 {
            return Err(INDEX_OUT_OF_RANGE);
        }
        self.columns[index] = Column::from_char(c);
        proof {
            assert(self@.columns =~= old(self)@.columns.update(index as int, typed_column(c)));
        }
        Ok(())
    }

    /// Puts the pattern `code` into the column at `index`, with nothing
    /// printed. An index of 80 or more is refused, and the card stays as it
    /// was.
    pub fn set_column_hollerith(&mut self, index: usize, code: HollerithCode) -> (done: Result<
        (),
        &'static str,
    >)
        ensures
            index < 80 ==> done is Ok && final(self)@ == (CardView {
                columns: old(self)@.columns.update(index as int, punched_column(code@)),
                card_type: old(self)@.card_type,
            }),
            index >= 80 ==> (done matches Err(message) && message@ == INDEX_OUT_OF_RANGE@)
                && final(self)@ == old(self)@,
    {
        proof {
            use_type_invariant(&*self);
        }
        if index >= 80 {
            return Err(INDEX_OUT_OF_RANGE);
        }
        self.columns[index] = Column::from_hollerith(code);
        proof {
            assert(self@.columns =~= old(self)@.columns.update(
                index as int,
                punched_column(code@),
            ));
        }
        Ok(())
    }

    /// Makes the column at `index` blank. An index of 80 or more is refused,
    /// and the card stays as it was.
    pub fn clear_column(&mut self, index: usize) -> (done: Result<(), &'static str>)
        ensures
            index < 80 ==> done is Ok && final(self)@ == (CardView {
                columns: old(self)@.columns.update(index as int, blank_column()),
                card_type: old(self)@.card_type,
            }),
            index >= 80 ==> (done matches Err(message) && message@ == INDEX_OUT_OF_RANGE@)
                && final(self)@ == old(self)@,
    {
        proof {
            use_type_invariant(&*self);
        }
        if index >= 80 {
            return Err(INDEX_OUT_OF_RANGE);
        }
        self.columns[index] = Column::new();
        proof {
            assert(self@.columns =~= old(self)@.columns.update(index as int, blank_column()));
        }
        Ok(())
    }

    /// Makes every column blank. The kind of the card stays.
    pub fn clear(&mut self)
        ensures
            final(self)@ == (CardView {
                columns: blank_columns(),
                card_type: old(self)@.card_type,
            }),
            punched_count(final(self)@.columns) == 0,
    {
        proof {
            use_type_invariant(&*self);
        }
        let mut i: usize = 0;
        while i < 80
            invariant
                i <= 80,
                self.columns@.len() == 80,
                self.card_type == old(self).card_type,
                forall|k: int| 0 <= k < i ==> self.columns@[k]@ == blank_column(),
            decreases 80 - i,
        {
            self.columns[i] = Column::new();
            i += 1;
        }
        proof {
            assert(self@.columns =~= blank_columns());
            lemma_punched_count(blank_columns());
        }
    }

    /// The card as text: the character of each column's pattern, `?` where
    /// the pattern has none. The printed characters and the kind of the card
    /// play no part.
    pub fn to_text(&self) -> (text: String)
        ensures
            text@ == card_text(self@.columns),
            text@.len() == 80,
    {
        proof {
            use_type_invariant(self);
        }
        let mut text = String::new();
        let mut i: usize = 0;
        while i < 80
            invariant
                i <= 80,
                self.columns@.len() == 80,
                text@.len() == i,
                forall|k: int| 0 <= k < i ==> text@[k] == decoded_char(self.columns@[k]@.punches),
            decreases 80 - i,
        {
            let c = match self.columns[i].to_char() {
                Some(c) => c,
                None => '?',
            };
            text.push(c);
            i += 1;
        }
        proof {
            assert(text@ =~= card_text(self@.columns));
        }
        text
    }

    /// The number of columns that have at least one punch.
    pub fn punched_count(&self) -> (count: usize)
        ensures
            count == punched_count(self@.columns),
            count <= 80,
    {
        proof {
            use_type_invariant(self);
        }
        let mut count: usize = 0;
        let mut i: usize = 0;
        while i < 80
            invariant
                i <= 80,
                self.columns@.len() == 80,
                count <= i,
                count == punched_count(self@.columns.take(i as int)),
            decreases 80 - i,
        {
            proof {
                let next = self@.columns.take(i + 1);
                assert(next.drop_last() =~= self@.columns.take(i as int));
                assert(next.last() == self.columns@[i as int]@);
            }
            if !self.columns[i].is_blank() {
                count += 1;
            }
            i += 1;
        }
        proof {
            assert(self@.columns.take(80) =~= self@.columns);
        }
        count
    }

    /// All eighty columns, in order.
    pub fn columns(&self) -> (columns: &[Column])
        ensures
            columns@.len() == 80,
            columns@.map_values(|c: Column| c@) == self@.columns,
    {
        proof {
            use_type_invariant(self);
            assert(self.columns@.map_values(|c: Column| c@) =~= self@.columns);
        }
        self.columns.as_slice()
    }
}

impl Default for PunchCard {
    fn default() -> (card: PunchCard)
        ensures
            card@ == (CardView { columns: blank_columns(), card_type: CardType::Text }),
    {
        PunchCard::new(CardType::Text)
    }
}

/// The count is at most the number of columns. It is zero exactly when every
/// column is blank, and the number of columns exactly when none is.
pub proof fn lemma_punched_count(columns: Seq<ColumnView>)
    ensures
        punched_count(columns) <= columns.len(),
        punched_count(columns) == 0 <==> forall|i: int|
            0 <= i < columns.len() ==> (#[trigger] columns[i]).punches.len() == 0,
        punched_count(columns) == columns.len() <==> forall|i: int|
            0 <= i < columns.len() ==> (#[trigger] columns[i]).punches.len() > 0,
    decreases columns.len(),
{
    if columns.len() > 0 {
        let front = columns.drop_last();
        lemma_punched_count(front);
        if forall|i: int| 0 <= i < columns.len() ==> (#[trigger] columns[i]).punches.len() == 0 {
            assert(columns.last().punches.len() == 0);
            assert forall|i: int| 0 <= i < front.len() implies (#[trigger] front[i]).punches.len()
                == 0 by {
                assert(front[i] == columns[i]);
            }
        }
        if forall|i: int| 0 <= i < columns.len() ==> (#[trigger] columns[i]).punches.len() > 0 {
            assert(columns.last().punches.len() > 0);
            assert forall|i: int| 0 <= i < front.len() implies (#[trigger] front[i]).punches.len()
                > 0 by {
                assert(front[i] == columns[i]);
            }
        }
        if punched_count(columns) == 0 {
            assert forall|i: int| 0 <= i < columns.len() implies (#[trigger] columns[i]).punches.len()
                == 0 by {
                if i < front.len() {
                    assert(front[i] == columns[i]);
                }
            }
        }
        if punched_count(columns) == columns.len() {
            assert forall|i: int| 0 <= i < columns.len() implies (#[trigger] columns[i]).punches.len()
                > 0 by {
                if i < front.len() {
                    assert(front[i] == columns[i]);
                }
            }
        }
    }
}

} // verus!
