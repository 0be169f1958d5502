//! The layouts that a card is read from and written to: keyed text, the dense
//! and the legacy binary formats, and EBCDIC bytes.
//!
//! Each layout is stated here as a function on the columns of a card; the
//! card's own operations are held to these.

use crate::bits::{
    byte_bit, lemma_packed_of_stream, lemma_stream_of_packed, packed, stream_bit, stream_bits,
};
use crate::ebcdic::{
    ebcdic_of_rows, is_card_code, lemma_ebcdic_of_rows_of_ebcdic, rows_of_ebcdic, EBCDIC_SPACE,
};
use crate::hollerith::{
    char_after, char_of_rows, decoded_char, lemma_char_round_trip, rows_of_char,
};
use crate::punch_card::{blank_column, punched_column, typed_column, ColumnView};
use crate::rows::{
    all_rows, is_ascending, lemma_positional_of_slots, lemma_positional_round_trip, positional,
    rows_of_slots,
};
use crate::text::ascii_upper;
use vstd::prelude::*;

verus! {

/// The columns of a card keyed from `text`: one column for each of the first
/// eighty characters, blank columns after them.
pub open spec fn text_columns(text: Seq<char>) -> Seq<ColumnView> {
    Seq::new(
        80,
        |i: int|
            if i < text.len() {
                typed_column(text[i])
            } else {
                blank_column()
            },
    )
}

/// The twelve slots of column `column` in the dense format: bit
/// `12 * column + k` of the buffer is slot `k`.
pub open spec fn dense_slots(data: Seq<u8>, column: int) -> Seq<bool> {
    Seq::new(12, |k: int| stream_bit(data, 12 * column + k))
}

/// The columns of a card read from a dense buffer of 108 bytes: columns 0 to
/// 71 from twelve bits each, columns 72 to 79 blank.
pub open spec fn dense_columns(data: Seq<u8>) -> Seq<ColumnView> {
    Seq::new(
        80,
        |i: int|
            if i < 72 {
                punched_column(rows_of_slots(dense_slots(data, i)))
            } else {
                blank_column()
            },
    )
}

/// The twelve slots of a column in the legacy format: bit `k` of the byte is
/// slot `k` for the first eight slots; the last four are never set.
pub open spec fn legacy_slots(byte: u8) -> Seq<bool> {
    Seq::new(12, |k: int| k < 8 && byte_bit(byte, k))
}

/// The columns of a card read from a legacy buffer: one column for each of
/// the first eighty bytes, blank columns after them.
pub open spec fn legacy_columns(data: Seq<u8>) -> Seq<ColumnView> {
    Seq::new(
        80,
        |i: int|
            if i < data.len() {
                punched_column(rows_of_slots(legacy_slots(data[i])))
            } else {
                blank_column()
            },
    )
}

/// The two layouts of a binary buffer.
#[derive(Debug, Clone, Copy, PartialEq, Eq, Structural)]
pub enum BinaryFormat {
    /// 108 bytes: twelve bits for each of the columns 0 to 71.
    Dense,
    /// One byte for each column, for the first eight slots of it.
    Legacy,
}

/// The length in bytes of a buffer in the dense format.
pub const DENSE_LENGTH: usize = 108;

/// The layout that a buffer of `length` bytes is read in: the dense format
/// for exactly 108 bytes, the legacy format for any other length.
pub open spec fn format_of_length(length: nat) -> BinaryFormat {
    if length == DENSE_LENGTH {
        BinaryFormat::Dense
    } else {
        BinaryFormat::Legacy
    }
}

impl BinaryFormat {
    /// The layout that a buffer of `length` bytes is read in.
    pub fn of_length(length: usize) -> (format: BinaryFormat)
        ensures
            format == format_of_length(length as nat),
    {
        if length == DENSE_LENGTH {
            BinaryFormat::Dense
        } else {
            BinaryFormat::Legacy
        }
    }
}

/// The columns of a card read from a binary buffer, in the layout that its
/// length selects.
pub open spec fn binary_columns(data: Seq<u8>) -> Seq<ColumnView> {
    match format_of_length(data.len()) {
        BinaryFormat::Dense => dense_columns(data),
        BinaryFormat::Legacy => legacy_columns(data),
    }
}

/// The 864 bits of the dense format: bit `k` is slot `k mod 12` of column
/// `k / 12`.
pub open spec fn card_bits(columns: Seq<ColumnView>) -> Seq<bool> {
    Seq::new(864, |k: int| positional(columns[k / 12].punches)[k % 12])
}

/// The 108 bytes of the dense format of the first 72 columns.
pub open spec fn dense_bytes(columns: Seq<ColumnView>) -> Seq<u8> {
    packed(card_bits(columns))
}

/// The character printed above a column read from an EBCDIC byte: the space,
/// a digit or a letter for the codes of those, nothing for any other byte.
pub open spec fn ebcdic_printed(byte: u8) -> Option<char> {
    if byte == 0x40 {
        Some(' ')
    } else if 0xF0 <= byte <= 0xF9 {
        Some(char_after('0', byte - 0xF0))
    } else if 0xC1 <= byte <= 0xC9 {
        Some(char_after('A', byte - 0xC1))
    } else if 0xD1 <= byte <= 0xD9 {
        Some(char_after('J', byte - 0xD1))
    } else if 0xE2 <= byte <= 0xE9 {
        Some(char_after('S', byte - 0xE2))
    } else {
        None
    }
}

/// The column read from an EBCDIC byte.
pub open spec fn ebcdic_column(byte: u8) -> ColumnView {
    ColumnView { punches: rows_of_ebcdic(byte), printed_char: ebcdic_printed(byte) }
}

/// The columns of a card read from EBCDIC bytes: one column for each of the
/// first eighty bytes, blank columns after them.
pub open spec fn ebcdic_columns(data: Seq<u8>) -> Seq<ColumnView> {
    Seq::new(
        80,
        |i: int|
            if i < data.len() {
                ebcdic_column(data[i])
            } else {
                blank_column()
            },
    )
}

/// The EBCDIC byte of each column.
pub open spec fn ebcdic_bytes(columns: Seq<ColumnView>) -> Seq<u8> {
    columns.map_values(|c: ColumnView| ebcdic_of_rows(c.punches))
}

/// The character of each column's pattern, `?` where it has none.
pub open spec fn card_text(columns: Seq<ColumnView>) -> Seq<char> {
    columns.map_values(|c: ColumnView| decoded_char(c.punches))
}

/// The columns that a card has after it was written in the dense format and
/// read back: each of the first 72 patterns in canonical form, without what
/// names no row; nothing printed; the last eight columns blank.
pub open spec fn reloaded_columns(columns: Seq<ColumnView>) -> Seq<ColumnView> {
    Seq::new(
        80,
        |i: int|
            if i < 72 {
                punched_column(rows_of_slots(positional(columns[i].punches)))
            } else {
                blank_column()
            },
    )
}

/// Reading a dense buffer and writing the card again gives the same 108
/// bytes.
pub proof fn lemma_dense_bytes_of_dense_columns(data: Seq<u8>)
    requires
        data.len() == 108,
    ensures
        dense_bytes(dense_columns(data)) == data,
{
    let columns = dense_columns(data);
    assert forall|k: int| 0 <= k < 864 implies card_bits(columns)[k] == stream_bit(data, k) by {
        let slots = dense_slots(data, k / 12);
        lemma_positional_of_slots(slots);
        assert(columns[k / 12].punches == rows_of_slots(slots));
        assert(slots[k % 12] == stream_bit(data, 12 * (k / 12) + k % 12));
    }
    assert(card_bits(columns) =~= stream_bits(data, 864));
    lemma_packed_of_stream(data);
}

/// Writing a card in the dense format and reading it back gives
/// `reloaded_columns`.
pub proof fn lemma_dense_columns_of_dense_bytes(columns: Seq<ColumnView>)
    ensures
        dense_columns(dense_bytes(columns)) == reloaded_columns(columns),
{
    let data = dense_bytes(columns);
    assert forall|i: int| 0 <= i < 72 implies dense_slots(data, i) == positional(
        columns[i].punches,
    ) by {
        assert forall|k: int| 0 <= k < 12 implies dense_slots(data, i)[k] == positional(
            columns[i].punches,
        )[k] by {
            lemma_stream_of_packed(card_bits(columns), 12 * i + k);
            assert((12 * i + k) / 12 == i);
            assert((12 * i + k) % 12 == k);
        }
        assert(dense_slots(data, i) =~= positional(columns[i].punches));
    }
    assert(dense_columns(data) =~= reloaded_columns(columns));
}

/// The dense format is a fixed point: writing a card, reading the bytes and
/// writing again gives the bytes of the first writing.
pub proof fn lemma_dense_fixed_point(columns: Seq<ColumnView>)
    ensures
        dense_bytes(dense_columns(dense_bytes(columns))) == dense_bytes(columns),
{
    lemma_dense_bytes_of_dense_columns(dense_bytes(columns));
}

/// A card comes back unchanged from the dense format where its first 72
/// columns hold canonical patterns of rows with nothing printed, and its last
/// eight columns are blank.
pub proof fn lemma_dense_keeps_object_card(columns: Seq<ColumnView>)
    requires
        columns.len() == 80,
        forall|i: int|
            0 <= i < 72 ==> {
                &&& is_ascending(#[trigger] columns[i].punches)
                &&& all_rows(columns[i].punches)
                &&& columns[i].printed_char is None
            },
        forall|i: int| 72 <= i < 80 ==> #[trigger] columns[i] == blank_column(),
    ensures
        dense_columns(dense_bytes(columns)) == columns,
{
    lemma_dense_columns_of_dense_bytes(columns);
    assert forall|i: int| 0 <= i < 80 implies reloaded_columns(columns)[i] == columns[i] by {
        if i < 72 {
            assert(is_ascending(columns[i].punches));
            lemma_positional_round_trip(columns[i].punches);
        }
    }
    assert(reloaded_columns(columns) =~= columns);
}

/// Where an EBCDIC byte has a printed character, it is the character of the
/// byte's pattern.
pub proof fn lemma_ebcdic_printed_is_decoded(byte: u8)
    requires
        ebcdic_printed(byte) is Some,
    ensures
        char_of_rows(rows_of_ebcdic(byte)) == ebcdic_printed(byte),
{
}

/// The text of a card keyed from `text`: each of the first eighty characters
/// in upper case, a space for each that the keypunch cannot punch, and spaces
/// up to the eightieth column.
pub proof fn lemma_text_of_text_columns(text: Seq<char>)
    ensures
        card_text(text_columns(text)) == Seq::new(
            80,
            |i: int|
                if i < text.len() && rows_of_char(ascii_upper(text[i])) is Some {
                    ascii_upper(text[i])
                } else {
                    ' '
                },
        ),
{
    let expected = Seq::new(
        80,
        |i: int|
            if i < text.len() && rows_of_char(ascii_upper(text[i])) is Some {
                ascii_upper(text[i])
            } else {
                ' '
            },
    );
    assert forall|i: int| 0 <= i < 80 implies card_text(text_columns(text))[i] == expected[i] by {
        if i < text.len() && rows_of_char(ascii_upper(text[i])) is Some {
            lemma_char_round_trip(ascii_upper(text[i]));
        }
    }
    assert(card_text(text_columns(text)) =~= expected);
}

/// The EBCDIC bytes of a card read from EBCDIC bytes: each of the first
/// eighty bytes as it was where it is a code of the table, a space for every
/// other byte, and spaces up to the eightieth column.
pub proof fn lemma_ebcdic_bytes_of_ebcdic_columns(data: Seq<u8>)
    ensures
        ebcdic_bytes(ebcdic_columns(data)) == Seq::new(
            80,
            |i: int|
                if i < data.len() && is_card_code(data[i]) {
                    data[i]
                } else {
                    EBCDIC_SPACE
                },
        ),
{
    let expected = Seq::new(
        80,
        |i: int|
            if i < data.len() && is_card_code(data[i]) {
                data[i]
            } else {
                EBCDIC_SPACE
            },
    );
    assert forall|i: int| 0 <= i < 80 implies ebcdic_bytes(ebcdic_columns(data))[i]
        == expected[i] by {
        if i < data.len() {
            lemma_ebcdic_of_rows_of_ebcdic(data[i]);
        }
    }
    assert(ebcdic_bytes(ebcdic_columns(data)) =~= expected);
}

} // verus!
