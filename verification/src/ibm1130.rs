//! Cards of the IBM 1130: an assembler source card, an object deck card, and
//! the checks that tell the two apart.

use crate::bits::{lemma_masked_word_bit, lemma_stream_of_packed, pack_bits, word_bit};
use crate::formats::{dense_columns, dense_slots, text_columns};
use crate::punch_card::{
    blank_column, punched_column, punched_count, CardType, CardView, ColumnView, PunchCard,
};
use crate::rows::rows_of_slots;
use vstd::prelude::*;
use vstd::string::StringExecFns;

pub mod opcodes;

verus! {

/// The text of the example source card: a label, an operation, an operand
/// and a comment.
pub const EXAMPLE_SOURCE: &'static str = "START DC   0             IBM 1130 EXAMPLE PROGRAM";

/// The punch patterns of the example object card, one word for each of the
/// columns 0 to 71. Bit `k` of a word is slot `k` of its column.
pub const EXAMPLE_PATTERNS: [u16; 72] = [
    0x0E49, 0x0C31, 0x0842, 0x0421, 0x0E73, 0x0C52, 0x0946, 0x0735, 0x0E5A, 0x0C48, 0x08E3,
    0x0467, 0x0F21, 0x0D84, 0x0B42, 0x09C6, 0x0E87, 0x0C39, 0x0A51, 0x0763, 0x0E94, 0x0CB2,
    0x0856, 0x0429, 0x0F48, 0x0D31, 0x0B82, 0x0974, 0x0EC5, 0x0CA3, 0x0A61, 0x0847, 0x0E29,
    0x0C74, 0x08B5, 0x0493, 0x0F52, 0x0DB1, 0x0B73, 0x0965, 0x0E38, 0x0C91, 0x0A42, 0x0826,
    0x0F64, 0x0DC8, 0x0B51, 0x0937, 0x0EA7, 0x0C52, 0x0984, 0x0763, 0x0E41, 0x0CB5, 0x0A29,
    0x0876, 0x0F93, 0x0D42, 0x0BC6, 0x0948, 0x0E72, 0x0CA4, 0x0851, 0x0639, 0x0F28, 0x0DB7,
    0x0B94, 0x0962, 0x0E56, 0x0C83, 0x0A41, 0x0725,
];

/// The twelve slots that a pattern word sets.
pub open spec fn pattern_slots(pattern: u16) -> Seq<bool> {
    Seq::new(12, |k: int| word_bit(pattern, k))
}

/// The columns of an object card punched from pattern words: one column for
/// each of the first 72 words, the last eight columns blank.
pub open spec fn object_columns(patterns: Seq<u16>) -> Seq<ColumnView> {
    Seq::new(
        80,
        |i: int|
            if i < 72 {
                punched_column(rows_of_slots(pattern_slots(patterns[i])))
            } else {
                blank_column()
            },
    )
}

/// An example of an assembler source card.
pub fn generate_example_source() -> (card: PunchCard)
    ensures
        card@ == (CardView { columns: text_columns(EXAMPLE_SOURCE@), card_type: CardType::Text }),
{
    PunchCard::from_text(EXAMPLE_SOURCE)
}

/// An example of an object deck card: dense punch patterns in the columns 0
/// to 71, as an assembler punches compiled code.
pub fn generate_example_object() -> (card: PunchCard)
    ensures
        card@ == (CardView {
            columns: object_columns(EXAMPLE_PATTERNS@),
            card_type: CardType::Binary,
        }),
{
    let mut bit_buffer: Vec<bool> = Vec::with_capacity(864);
    let mut i: usize = 0;
    while i < 72
        invariant
            i <= 72,
            bit_buffer@.len() == 12 * i,
            forall|m: int|
                0 <= m < 12 * i ==> bit_buffer@[m] == word_bit(EXAMPLE_PATTERNS@[m / 12], m % 12),
        decreases 72 - i,
    {
        let pattern = EXAMPLE_PATTERNS[i];
        let mut bit: usize = 0;
        while bit < 12
            invariant
                bit <= 12,
                i < 72,
                pattern == EXAMPLE_PATTERNS@[i as int],
                bit_buffer@.len() == 12 * i + bit,
                forall|m: int|
                    0 <= m < 12 * i + bit ==> bit_buffer@[m] == word_bit(
                        EXAMPLE_PATTERNS@[m / 12],
                        m % 12,
                    ),
            decreases 12 - bit,
        {
            proof {
                lemma_masked_word_bit(pattern, bit as u16);
            }
            bit_buffer.push((pattern & (1u16 << bit)) != 0);
            bit += 1;
        }
        i += 1;
    }
    let example_data = pack_bits(&bit_buffer);
    proof {
        assert forall|c: int| 0 <= c < 72 implies dense_slots(example_data@, c) == pattern_slots(
            EXAMPLE_PATTERNS@[c],
        ) by {
            assert forall|k: int| 0 <= k < 12 implies dense_slots(example_data@, c)[k]
                == pattern_slots(EXAMPLE_PATTERNS@[c])[k] by {
                lemma_stream_of_packed(bit_buffer@, 12 * c + k);
                assert((12 * c + k) / 12 == c);
                assert((12 * c + k) % 12 == k);
            }
            assert(dense_slots(example_data@, c) =~= pattern_slots(EXAMPLE_PATTERNS@[c]));
        }
        assert(dense_columns(example_data@) =~= object_columns(EXAMPLE_PATTERNS@));
    }
    PunchCard::from_binary(example_data.as_slice())
}

/// Whether a card can be an assembler source card: it must be a text card.
pub fn validate_source_format(card: &PunchCard) -> (checked: Result<(), String>)
    ensures
        checked is Ok <==> card@.card_type == CardType::Text,
        checked matches Err(message) ==> message@ == "Source cards must be text type"@,
{
    if card.card_type() != CardType::Text {
        return Err(String::from_str("Source cards must be text type"));
    }
    Ok(())
}

/// Whether a card can be an object deck card: it must be a binary card with
/// at least one punched column.
pub fn validate_object_format(card: &PunchCard) -> (checked: Result<(), String>)
    ensures
        checked is Ok <==> card@.card_type == CardType::Binary && punched_count(card@.columns)
            > 0,
        checked matches Err(message) ==> message@ == (if card@.card_type != CardType::Binary {
            "Object cards must be binary type"@
        } else {
            "Object card cannot be blank"@
        }),
{
    if card.card_type() != CardType::Binary {
        return Err(String::from_str("Object cards must be binary type"));
    }
    if card.punched_count() == 0 {
        return Err(String::from_str("Object card cannot be blank"));
    }
    Ok(())
}

} // verus!
