//! EBCDIC byte codes of punch patterns, for the 80-byte interchange format.
//!
//! The table covers the space, the digits, the upper-case letters and the
//! signs `&`, `-` and `/`. It does not depend on the character table.

use crate::hollerith::HollerithCode;
use crate::rows::lemma_canonical_of_short;
use vstd::prelude::*;

verus! {

/// The EBCDIC code of a space, which also stands for every pattern that the
/// table does not hold.
pub const EBCDIC_SPACE: u8 = 0x40;

/// The EBCDIC code of a canonical list of punched rows.
///
/// No punch is `0x40`. A single numeric row is `0xF0` plus the row, row 12
/// alone `0x4C`, row 11 alone `0x60`. Zone 12 with a row from 1 to 9 is `0xC0`
/// plus that row, zone 11 with such a row `0xD0` plus it, zone 0 with a row
/// from 2 to 9 `0xE0` plus it, and rows 0 and 1 together `0x61`. Every other
/// list is `0x40`.
pub open spec fn ebcdic_of_rows(rows: Seq<u8>) -> u8 {
    if rows.len() == 1 {
        if rows[0] <= 9 {
            (0xF0 + rows[0]) as u8
        } else if rows[0] == 12 {
            0x4C
        } else if rows[0] == 11 {
            0x60
        } else {
            EBCDIC_SPACE
        }
    } else if rows.len() == 2 {
        if 1 <= rows[0] <= 9 && rows[1] == 12 {
            (0xC0 + rows[0]) as u8
        } else if 1 <= rows[0] <= 9 && rows[1] == 11 {
            (0xD0 + rows[0]) as u8
        } else if rows[0] == 0 && 2 <= rows[1] <= 9 {
            (0xE0 + rows[1]) as u8
        } else if rows[0] == 0 && rows[1] == 1 {
            0x61
        } else {
            EBCDIC_SPACE
        }
    } else {
        EBCDIC_SPACE
    }
}

/// `byte` is one of the codes of the table.
pub open spec fn is_card_code(byte: u8) -> bool {
    ||| byte == EBCDIC_SPACE
    ||| 0xF0 <= byte <= 0xF9
    ||| 0xC1 <= byte <= 0xC9
    ||| 0xD1 <= byte <= 0xD9
    ||| 0xE2 <= byte <= 0xE9
    ||| byte == 0x4C
    ||| byte == 0x60
    ||| byte == 0x61
}

/// The canonical list of punched rows of an EBCDIC code: the inverse of
/// `ebcdic_of_rows` on the codes of the table, and no punch for every other
/// byte.
pub open spec fn rows_of_ebcdic(byte: u8) -> Seq<u8> {
    if 0xF0 <= byte <= 0xF9 {
        seq![(byte - 0xF0) as u8]
    } else if 0xC1 <= byte <= 0xC9 {
        seq![(byte - 0xC0) as u8, 12u8]
    } else if 0xD1 <= byte <= 0xD9 {
        seq![(byte - 0xD0) as u8, 11u8]
    } else if 0xE2 <= byte <= 0xE9 {
        seq![0u8, (byte - 0xE0) as u8]
    } else if byte == 0x4C {
        seq![12u8]
    } else if byte == 0x60 {
        seq![11u8]
    } else if byte == 0x61 {
        seq![0u8, 1u8]
    } else {
        Seq::empty()
    }
}

/// The EBCDIC code of a punch pattern; `0x40` where the table has none.
pub fn hollerith_to_ebcdic(code: &HollerithCode) -> (byte: u8)
    ensures
        byte == ebcdic_of_rows(code@),
{
    let rows = &code.rows;

    if rows.is_empty() {
        return 0x40;
    }
    if rows.len() == 1 {
        match rows[0] {
            0 => return 0xF0,
            1 => return 0xF1,
            2 => return 0xF2,
            3 => return 0xF3,
            4 => return 0xF4,
            5 => return 0xF5,
            6 => return 0xF6,
            7 => return 0xF7,
            8 => return 0xF8,
            9 => return 0xF9,
            12 => return 0x4C,
            11 => return 0x60,
            _ => return 0x40,
        }
    }
    if rows.len() == 2 {
        match (rows[0], rows[1]) {
            (1, 12) => return 0xC1,
            (2, 12) => return 0xC2,
            (3, 12) => return 0xC3,
            (4, 12) => return 0xC4,
            (5, 12) => return 0xC5,
            (6, 12) => return 0xC6,
            (7, 12) => return 0xC7,
            (8, 12) => return 0xC8,
            (9, 12) => return 0xC9,

            (1, 11) => return 0xD1,
            (2, 11) => return 0xD2,
            (3, 11) => return 0xD3,
            (4, 11) => return 0xD4,
            (5, 11) => return 0xD5,
            (6, 11) => return 0xD6,
            (7, 11) => return 0xD7,
            (8, 11) => return 0xD8,
            (9, 11) => return 0xD9,

            (0, 2) => return 0xE2,
            (0, 3) => return 0xE3,
            (0, 4) => return 0xE4,
            (0, 5) => return 0xE5,
            (0, 6) => return 0xE6,
            (0, 7) => return 0xE7,
            (0, 8) => return 0xE8,
            (0, 9) => return 0xE9,

            (0, 1) => return 0x61,

            _ => return 0x40,
        }
    }
    0x40
}

/// The punch pattern of an EBCDIC code; the blank pattern for a byte that the
/// table does not hold.
pub fn ebcdic_to_hollerith(byte: u8) -> (code: HollerithCode)
    ensures
        code@ == rows_of_ebcdic(byte),
        code.well_formed(),
{
    let rows: Vec<u8> = match byte {
        0x40 => vec![],

        0xF0 => vec![0],
        0xF1 => vec![1],
        0xF2 => vec![2],
        0xF3 => vec![3],
        0xF4 => vec![4],
        0xF5 => vec![5],
        0xF6 => vec![6],
        0xF7 => vec![7],
        0xF8 => vec![8],
        0xF9 => vec![9],

        0xC1 => vec![12, 1],
        0xC2 => vec![12, 2],
        0xC3 => vec![12, 3],
        0xC4 => vec![12, 4],
        0xC5 => vec![12, 5],
        0xC6 => vec![12, 6],
        0xC7 => vec![12, 7],
        0xC8 => vec![12, 8],
        0xC9 => vec![12, 9],

        0xD1 => vec![11, 1],
        0xD2 => vec![11, 2],
        0xD3 => vec![11, 3],
        0xD4 => vec![11, 4],
        0xD5 => vec![11, 5],
        0xD6 => vec![11, 6],
        0xD7 => vec![11, 7],
        0xD8 => vec![11, 8],
        0xD9 => vec![11, 9],

        0xE2 => vec![0, 2],
        0xE3 => vec![0, 3],
        0xE4 => vec![0, 4],
        0xE5 => vec![0, 5],
        0xE6 => vec![0, 6],
        0xE7 => vec![0, 7],
        0xE8 => vec![0, 8],
        0xE9 => vec![0, 9],

        0x4C => vec![12],
        0x60 => vec![11],
        0x61 => vec![0, 1],

        _ => vec![],
    };
    proof {
        lemma_canonical_of_short(rows@);
    }
    HollerithCode::new(rows)
}

/// Every byte that `ebcdic_of_rows` gives is a code of the table.
pub proof fn lemma_ebcdic_is_card_code(rows: Seq<u8>)
    ensures
        is_card_code(ebcdic_of_rows(rows)),
{
}

/// A code of the table comes back from its pattern; any other byte comes
/// back as a space.
pub proof fn lemma_ebcdic_of_rows_of_ebcdic(byte: u8)
    ensures
        ebcdic_of_rows(rows_of_ebcdic(byte)) == if is_card_code(byte) {
            byte
        } else {
            EBCDIC_SPACE
        },
{
}

/// A byte that was produced from a pattern survives the way to a pattern and
/// back.
pub proof fn lemma_ebcdic_round_trip(rows: Seq<u8>)
    ensures
        ebcdic_of_rows(rows_of_ebcdic(ebcdic_of_rows(rows))) == ebcdic_of_rows(rows),
{
    lemma_ebcdic_is_card_code(rows);
    lemma_ebcdic_of_rows_of_ebcdic(ebcdic_of_rows(rows));
}

} // verus!
