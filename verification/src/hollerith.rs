//! Hollerith punch patterns and the character table of the IBM 029 keypunch.

use crate::rows::{
    all_rows, canonical, is_ascending, is_row, lemma_canonical_of, lemma_canonical_of_short,
    lemma_insert_ascending, positional, punched_rows, row_of_slot, rows_of_slots, slot_of_row,
};
use crate::text::ascii_upper;
use vstd::prelude::*;
use vstd::seq_lib::lemma_seq_contains_after_push;

verus! {

/// The punch pattern of one card column.
///
/// `rows` lists the punched rows: `12` and `11` for the two upper zone rows,
/// `0` to `9` for the numeric rows. Every constructor stores them ascending
/// and without repeats, which `well_formed` states. The field is public: a
/// value written out by hand holds whatever it was given, and the lookups
/// then find nothing for a list that is not in this form.
#[derive(Debug)]
pub struct HollerithCode {
    pub rows: Vec<u8>,
}

impl PartialEq for HollerithCode {
    fn eq(&self, other: &Self) -> (equal: bool) {
        let equal = self.rows == other.rows;
        proof {
            if equal {
                assert(self@ =~= other@);
            }
        }
        equal
    }
}

impl vstd::std_specs::cmp::PartialEqSpecImpl for HollerithCode {
    open spec fn obeys_eq_spec() -> bool {
        true
    }

    /// Two patterns are equal when they store the same rows in the same
    /// order; for canonical patterns, when they punch the same set of rows.
    open spec fn eq_spec(&self, other: &Self) -> bool {
        self@ == other@
    }
}

impl Eq for HollerithCode {}

impl Clone for HollerithCode {
    fn clone(&self) -> (copy: Self)
        ensures
            copy@ == self@,
    {
        HollerithCode { rows: self.rows.clone() }
    }
}

impl View for HollerithCode {
    type V = Seq<u8>;

    open spec fn view(&self) -> Seq<u8> {
        self.rows@
    }
}

impl HollerithCode {
    /// The stored rows are strictly ascending, the canonical form.
    pub open spec fn well_formed(&self) -> bool {
        is_ascending(self@)
    }

    /// The pattern that punches exactly the given rows, in canonical form,
    /// whatever their order and however often each is given.
    pub fn new(rows: Vec<u8>) -> (code: HollerithCode)
        ensures
            code@ == canonical(rows@.to_set()),
            code.well_formed(),
    {
        let mut sorted: Vec<u8> = Vec::new();
        let mut i: usize = 0;
        while i < rows.len()
            invariant
                i <= rows.len(),
                is_ascending(sorted@),
                forall|r: u8|
                    #![trigger sorted@.contains(r)]
                    sorted@.contains(r) <==> rows@.take(i as int).contains(r),
            decreases rows.len() - i,
        {
            let row = rows[i];
            let mut at: usize = 0;
            while at < sorted.len() && sorted[at] < row
                invariant
                    at <= sorted.len(),
                    forall|k: int| 0 <= k < at ==> sorted@[k] < row,
                decreases sorted.len() - at,
            {
                at += 1;
            }
            proof {
                broadcast use lemma_seq_contains_after_push;

                rows@.lemma_take_succ_push(i as int);
            }
            if at == sorted.len() || sorted[at] != row {
                proof {
                    lemma_insert_ascending(sorted@, at as int, row);
                }
                sorted.insert(at, row);
            } else {
                assert(sorted@.contains(sorted@[at as int]));
            }
            i += 1;
        }
        proof {
            rows@.lemma_take_len();
            lemma_canonical_of(rows@, sorted@);
        }
        HollerithCode { rows: sorted }
    }

    /// The pattern with no punches, which stands for a blank column.
    pub fn empty() -> (code: HollerithCode)
        ensures
            code@ == Seq::<u8>::empty(),
            code.well_formed(),
    {
        HollerithCode { rows: Vec::new() }
    }

    /// Whether `row` is among the stored rows.
    pub fn is_punched(&self, row: u8) -> (punched: bool)
        ensures
            punched == self@.contains(row),
    {
        let mut i: usize = 0;
        while i < self.rows.len()
            invariant
                i <= self.rows.len(),
                forall|k: int| 0 <= k < i ==> self@[k] != row,
            decreases self.rows.len() - i,
        {
            if self.rows[i] == row {
                return true;
            }
            i += 1;
        }
        false
    }

    /// The positional form: twelve slots in the order `12, 11, 0, 1, ..., 9`.
    /// Stored entries that name no row are left out.
    pub fn as_array(&self) -> (arr: [bool; 12])
        ensures
            arr@ == positional(self@),
    {
        let mut arr = [false; 12];
        let mut i: usize = 0;
        while i < self.rows.len()
            invariant
                i <= self.rows.len(),
                forall|k: int|
                    0 <= k < 12 ==> arr@[k] == self@.take(i as int).contains(row_of_slot(k)),
            decreases self.rows.len() - i,
        {
            let row = self.rows[i];
            proof {
                broadcast use lemma_seq_contains_after_push;

                self@.lemma_take_succ_push(i as int);
            }
            if row == 12 {
                arr[0] = true;
            } else if row == 11 {
                arr[1] = true;
            } else if row <= 9 {
                arr[(row + 2) as usize] = true;
            }
            i += 1;
        }
        proof {
            self@.lemma_take_len();
            assert(arr@ =~= positional(self@));
        }
        arr
    }

    /// The canonical pattern that punches the rows whose slots are set.
    pub fn from_array(arr: [bool; 12]) -> (code: HollerithCode)
        ensures
            code@ == rows_of_slots(arr@),
            code.well_formed(),
    {
        let mut rows: Vec<u8> = Vec::new();
        let mut slot: usize = 0;
        while slot < 12
            invariant
                slot <= 12,
                forall|r: u8|
                    #![trigger rows@.contains(r)]
                    rows@.contains(r) <==> (is_row(r) && slot_of_row(r) < slot && arr@[slot_of_row(
                        r,
                    )]),
            decreases 12 - slot,
        {
            if arr[slot] {
                let row: u8 = if slot == 0 {
                    12
                } else if slot == 1 {
                    11
                } else {
                    (slot - 2) as u8
                };
                proof {
                    broadcast use lemma_seq_contains_after_push;

                    assert(row == row_of_slot(slot as int));
                }
                rows.push(row);
            }
            slot += 1;
        }
        proof {
            assert(rows@.to_set() =~= punched_rows(arr@));
        }
        HollerithCode::new(rows)
    }
}

/// The characters punched with row 8 and one other numeric row, by that row.
pub open spec fn eight_char(n: u8) -> Option<char> {
    if n == 2 {
        Some(':')
    } else if n == 3 {
        Some('#')
    } else if n == 4 {
        Some('@')
    } else if n == 5 {
        Some('\'')
    } else if n == 6 {
        Some('=')
    } else if n == 7 {
        Some('"')
    } else {
        None
    }
}

/// The characters punched with row 8, zone 12 and one other numeric row.
pub open spec fn twelve_eight_char(n: u8) -> Option<char> {
    if n == 3 {
        Some('.')
    } else if n == 4 {
        Some('<')
    } else if n == 5 {
        Some('(')
    } else if n == 6 {
        Some('+')
    } else if n == 7 {
        Some('|')
    } else {
        None
    }
}

/// The characters punched with row 8, zone 11 and one other numeric row.
pub open spec fn eleven_eight_char(n: u8) -> Option<char> {
    if n == 2 {
        Some('!')
    } else if n == 3 {
        Some('$')
    } else if n == 4 {
        Some('*')
    } else if n == 5 {
        Some(')')
    } else if n == 6 {
        Some(';')
    } else if n == 7 {
        Some('\u{ac}')
    } else {
        None
    }
}

/// The characters punched with row 8, zone 0 and one other numeric row.
pub open spec fn zero_eight_char(n: u8) -> Option<char> {
    if n == 3 {
        Some(',')
    } else if n == 4 {
        Some('%')
    } else if n == 5 {
        Some('_')
    } else if n == 6 {
        Some('>')
    } else if n == 7 {
        Some('?')
    } else {
        None
    }
}

/// The character `offset` places after `base`.
pub open spec fn char_after(base: char, offset: int) -> char {
    (base as int + offset) as char
}

/// The character of a canonical list of punched rows, where the table has one.
///
/// No punch is a space. One punch is a digit, `-` (row 11) or `&` (row 12).
/// Two punches are a letter (a zone row with a numeric row), `/` (0 and 1) or
/// one of six signs (row 8 with one of 2 to 7). Three punches are one of
/// sixteen signs (row 8, a zone row and one of 2 to 7). Every other list,
/// a list that is not ascending among them, has no character.
pub open spec fn char_of_rows(rows: Seq<u8>) -> Option<char> {
    if rows.len() == 0 {
        Some(' ')
    } else if rows.len() == 1 {
        if rows[0] <= 9 {
            Some(char_after('0', rows[0] as int))
        } else if rows[0] == 11 {
            Some('-')
        } else if rows[0] == 12 {
            Some('&')
        } else {
            None
        }
    } else if rows.len() == 2 {
        if 1 <= rows[0] <= 9 && rows[1] == 12 {
            Some(char_after('A', rows[0] - 1))
        } else if 1 <= rows[0] <= 9 && rows[1] == 11 {
            Some(char_after('J', rows[0] - 1))
        } else if rows[0] == 0 && 2 <= rows[1] <= 9 {
            Some(char_after('S', rows[1] - 2))
        } else if rows[0] == 0 && rows[1] == 1 {
            Some('/')
        } else if rows[1] == 8 {
            eight_char(rows[0])
        } else {
            None
        }
    } else if rows.len() == 3 {
        if rows[1] == 8 && rows[2] == 12 {
            twelve_eight_char(rows[0])
        } else if rows[1] == 8 && rows[2] == 11 {
            eleven_eight_char(rows[0])
        } else if rows[0] == 0 && rows[2] == 8 {
            zero_eight_char(rows[1])
        } else {
            None
        }
    } else {
        None
    }
}

/// The character for a punch pattern, or `None` where the table has none.
pub fn hollerith_to_char(code: &HollerithCode) -> (found: Option<char>)
    ensures
        found == char_of_rows(code@),
{
    if code.rows.is_empty() {
        return Some(' ');
    }
    let rows = &code.rows;

    if rows.len() == 1 {
        return match rows[0] {
            0 => Some('0'),
            1 => Some('1'),
            2 => Some('2'),
            3 => Some('3'),
            4 => Some('4'),
            5 => Some('5'),
            6 => Some('6'),
            7 => Some('7'),
            8 => Some('8'),
            9 => Some('9'),
            11 => Some('-'),
            12 => Some('&'),
            _ => None,
        };
    }
    if rows.len() == 2 {
        return match (rows[0], rows[1]) {
            (1, 12) => Some('A'),
            (2, 12) => Some('B'),
            (3, 12) => Some('C'),
            (4, 12) => Some('D'),
            (5, 12) => Some('E'),
            (6, 12) => Some('F'),
            (7, 12) => Some('G'),
            (8, 12) => Some('H'),
            (9, 12) => Some('I'),

            (1, 11) => Some('J'),
            (2, 11) => Some('K'),
            (3, 11) => Some('L'),
            (4, 11) => Some('M'),
            (5, 11) => Some('N'),
            (6, 11) => Some('O'),
            (7, 11) => Some('P'),
            (8, 11) => Some('Q'),
            (9, 11) => Some('R'),

            (0, 2) => Some('S'),
            (0, 3) => Some('T'),
            (0, 4) => Some('U'),
            (0, 5) => Some('V'),
            (0, 6) => Some('W'),
            (0, 7) => Some('X'),
            (0, 8) => Some('Y'),
            (0, 9) => Some('Z'),

            (0, 1) => Some('/'),
            (2, 8) => Some(':'),
            (3, 8) => Some('#'),
            (4, 8) => Some('@'),
            (5, 8) => Some('\''),
            (6, 8) => Some('='),
            (7, 8) => Some('"'),

            _ => None,
        };
    }
    if rows.len() == 3 {
        return match (rows[0], rows[1], rows[2]) {
            (3, 8, 12) => Some('.'),
            (4, 8, 12) => Some('<'),
            (5, 8, 12) => Some('('),
            (6, 8, 12) => Some('+'),
            (7, 8, 12) => Some('|'),

            (2, 8, 11) => Some('!'),
            (3, 8, 11) => Some('$'),
            (4, 8, 11) => Some('*'),
            (5, 8, 11) => Some(')'),
            (6, 8, 11) => Some(';'),
            (7, 8, 11) => Some('\u{ac}'),

            (0, 3, 8) => Some(','),
            (0, 4, 8) => Some('%'),
            (0, 5, 8) => Some('_'),
            (0, 6, 8) => Some('>'),
            (0, 7, 8) => Some('?'),

            _ => None,
        };
    }
    None
}

/// The canonical list of punched rows for a character of the keypunch's set,
/// `None` for every other character. Letters are upper case only.
///
/// A digit is its own numeric row. `A` to `I` are zone 12 with rows 1 to 9,
/// `J` to `R` zone 11 with rows 1 to 9, `S` to `Z` zone 0 with rows 2 to 9.
/// The space has no punch, `&` is row 12 alone, `-` row 11 alone, `/` rows 0
/// and 1. The other signs are punched with row 8.
pub open spec fn rows_of_char(c: char) -> Option<Seq<u8>> {
    if '0' <= c <= '9' {
        Some(seq![(c as int - '0' as int) as u8])
    } else if 'A' <= c <= 'I' {
        Some(seq![(c as int - 'A' as int + 1) as u8, 12u8])
    } else if 'J' <= c <= 'R' {
        Some(seq![(c as int - 'J' as int + 1) as u8, 11u8])
    } else if 'S' <= c <= 'Z' {
        Some(seq![0u8, (c as int - 'S' as int + 2) as u8])
    } else if c == ' ' {
        Some(Seq::empty())
    } else if c == '&' {
        Some(seq![12u8])
    } else if c == '-' {
        Some(seq![11u8])
    } else if c == '/' {
        Some(seq![0u8, 1u8])
    } else if c == '.' {
        Some(seq![3u8, 8u8, 12u8])
    } else if c == '<' {
        Some(seq![4u8, 8u8, 12u8])
    } else if c == '(' {
        Some(seq![5u8, 8u8, 12u8])
    } else if c == '+' {
        Some(seq![6u8, 8u8, 12u8])
    } else if c == '|' {
        Some(seq![7u8, 8u8, 12u8])
    } else if c == '!' {
        Some(seq![2u8, 8u8, 11u8])
    } else if c == '$' {
        Some(seq![3u8, 8u8, 11u8])
    } else if c == '*' {
        Some(seq![4u8, 8u8, 11u8])
    } else if c == ')' {
        Some(seq![5u8, 8u8, 11u8])
    } else if c == ';' {
        Some(seq![6u8, 8u8, 11u8])
    } else if c == '\u{ac}' {
        Some(seq![7u8, 8u8, 11u8])
    } else if c == ',' {
        Some(seq![0u8, 3u8, 8u8])
    } else if c == '%' {
        Some(seq![0u8, 4u8, 8u8])
    } else if c == '_' {
        Some(seq![0u8, 5u8, 8u8])
    } else if c == '>' {
        Some(seq![0u8, 6u8, 8u8])
    } else if c == '?' {
        Some(seq![0u8, 7u8, 8u8])
    } else if c == ':' {
        Some(seq![2u8, 8u8])
    } else if c == '#' {
        Some(seq![3u8, 8u8])
    } else if c == '@' {
        Some(seq![4u8, 8u8])
    } else if c == '\'' {
        Some(seq![5u8, 8u8])
    } else if c == '=' {
        Some(seq![6u8, 8u8])
    } else if c == '"' {
        Some(seq![7u8, 8u8])
    } else {
        None
    }
}

/// The punch pattern of a character, or `None` where the keypunch has none
/// for it. Lower-case letters have none: callers upcase first.
pub fn char_to_hollerith(c: char) -> (found: Option<HollerithCode>)
    ensures
        found is Some <==> rows_of_char(c) is Some,
        found matches Some(code) ==> rows_of_char(c) == Some(code@) && code.well_formed(),
{
    let code: Vec<u8> = match c {
        '0' => vec![0],
        '1' => vec![1],
        '2' => vec![2],
        '3' => vec![3],
        '4' => vec![4],
        '5' => vec![5],
        '6' => vec![6],
        '7' => vec![7],
        '8' => vec![8],
        '9' => vec![9],

        'A' => vec![12, 1],
        'B' => vec![12, 2],
        'C' => vec![12, 3],
        'D' => vec![12, 4],
        'E' => vec![12, 5],
        'F' => vec![12, 6],
        'G' => vec![12, 7],
        'H' => vec![12, 8],
        'I' => vec![12, 9],

        'J' => vec![11, 1],
        'K' => vec![11, 2],
        'L' => vec![11, 3],
        'M' => vec![11, 4],
        'N' => vec![11, 5],
        'O' => vec![11, 6],
        'P' => vec![11, 7],
        'Q' => vec![11, 8],
        'R' => vec![11, 9],

        'S' => vec![0, 2],
        'T' => vec![0, 3],
        'U' => vec![0, 4],
        'V' => vec![0, 5],
        'W' => vec![0, 6],
        'X' => vec![0, 7],
        'Y' => vec![0, 8],
        'Z' => vec![0, 9],

        ' ' => vec![],
        '&' => vec![12],
        '-' => vec![11],
        '/' => vec![0, 1],

        '.' => vec![12, 3, 8],
        '<' => vec![12, 4, 8],
        '(' => vec![12, 5, 8],
        '+' => vec![12, 6, 8],
        '|' => vec![12, 7, 8],

        '!' => vec![11, 2, 8],
        '$' => vec![11, 3, 8],
        '*' => vec![11, 4, 8],
        ')' => vec![11, 5, 8],
        ';' => vec![11, 6, 8],
        '\u{ac}' => vec![11, 7, 8],

        ',' => vec![0, 3, 8],
        '%' => vec![0, 4, 8],
        '_' => vec![0, 5, 8],
        '>' => vec![0, 6, 8],
        '?' => vec![0, 7, 8],

        ':' => vec![2, 8],
        '#' => vec![3, 8],
        '@' => vec![4, 8],
        '\'' => vec![5, 8],
        '=' => vec![6, 8],
        '"' => vec![7, 8],

        _ => {
            return None;
        },
    };
    proof {
        lemma_canonical_of_short(code@);
    }
    Some(HollerithCode::new(code))
}

/// The pattern that a character is encoded to: the pattern of its upper-case
/// form, and no punch where the keypunch has no pattern for that.
pub open spec fn encoded_char(c: char) -> Seq<u8> {
    match rows_of_char(ascii_upper(c)) {
        Some(rows) => rows,
        None => Seq::empty(),
    }
}

/// The character that a pattern is decoded to: its character, and `?` where
/// the table has none.
pub open spec fn decoded_char(rows: Seq<u8>) -> char {
    match char_of_rows(rows) {
        Some(c) => c,
        None => '?',
    }
}

/// Each character of a text encoded in turn.
pub open spec fn encoded(text: Seq<char>) -> Seq<Seq<u8>> {
    text.map_values(|c: char| encoded_char(c))
}

/// Each pattern of a list decoded in turn.
pub open spec fn decoded(patterns: Seq<Seq<u8>>) -> Seq<char> {
    patterns.map_values(|rows: Seq<u8>| decoded_char(rows))
}

/// The lists of rows of a list of patterns.
pub open spec fn patterns_of(codes: Seq<HollerithCode>) -> Seq<Seq<u8>> {
    codes.map_values(|code: HollerithCode| code@)
}

/// The pattern of each character of `s`, upper-cased first; a character that
/// the keypunch cannot punch gives the blank pattern.
pub fn encode_string(s: &str) -> (codes: Vec<HollerithCode>)
    ensures
        patterns_of(codes@) == encoded(s@),
        forall|i: int| 0 <= i < codes@.len() ==> (#[trigger] codes@[i]).well_formed(),
{
    let mut codes: Vec<HollerithCode> = Vec::new();
    for c in it: s.chars()
        invariant
            it.seq() == s@,
            codes@.len() == it.index(),
            forall|i: int| 0 <= i < codes@.len() ==> (#[trigger] codes@[i])@ == encoded_char(s@[i]),
            forall|i: int| 0 <= i < codes@.len() ==> (#[trigger] codes@[i]).well_formed(),
    {
        let code = match char_to_hollerith(c.to_ascii_uppercase()) {
            Some(code) => code,
            None => HollerithCode::empty(),
        };
        codes.push(code);
    }
    proof {
        assert(patterns_of(codes@) =~= encoded(s@));
    }
    codes
}

/// The character of each pattern of `codes`; a pattern that the table does
/// not hold gives `?`.
pub fn decode_string(codes: &[HollerithCode]) -> (text: String)
    ensures
        text@ == decoded(patterns_of(codes@)),
{
    let mut text = String::new();
    let mut i: usize = 0;
    while i < codes.len()
        invariant
            i <= codes.len(),
            text@.len() == i,
            forall|k: int| 0 <= k < i ==> text@[k] == decoded_char(codes@[k]@),
        decreases codes.len() - i,
    {
        let c = match hollerith_to_char(&codes[i]) {
            Some(c) => c,
            None => '?',
        };
        text.push(c);
        i += 1;
    }
    proof {
        assert(text@ =~= decoded(patterns_of(codes@)));
    }
    text
}

/// Encoding and decoding a supported character gives that character back:
/// the two tables are inverse to each other on the keypunch's set.
pub proof fn lemma_char_round_trip(c: char)
    requires
        rows_of_char(c) is Some,
    ensures
        char_of_rows(rows_of_char(c)->0) == Some(c),
{
}

/// Decoding and encoding a pattern that has a character gives that pattern
/// back.
pub proof fn lemma_rows_round_trip(rows: Seq<u8>)
    requires
        char_of_rows(rows) is Some,
    ensures
        rows_of_char(char_of_rows(rows)->0) == Some(rows),
{
    let found = rows_of_char(char_of_rows(rows)->0);
    assert(found is Some);
    assert(found->0 =~= rows);
}

/// The pattern of every supported character is canonical and punches rows of
/// the card only.
pub proof fn lemma_rows_of_char_canonical(c: char)
    requires
        rows_of_char(c) is Some,
    ensures
        is_ascending(rows_of_char(c)->0),
        all_rows(rows_of_char(c)->0),
{
}

/// Encoding does not tell upper case from lower case.
pub proof fn lemma_encode_ignores_case(text: Seq<char>)
    ensures
        encoded(text.map_values(|c: char| ascii_upper(c))) == encoded(text),
{
    assert(encoded(text.map_values(|c: char| ascii_upper(c))) =~= encoded(text));
}

/// Decoding what was encoded gives the text back in upper case, with a space
/// in place of every character that the keypunch cannot punch.
pub proof fn lemma_decode_encoded(text: Seq<char>)
    ensures
        decoded(encoded(text)) == text.map_values(
            |c: char|
                if rows_of_char(ascii_upper(c)) is Some {
                    ascii_upper(c)
                } else {
                    ' '
                },
        ),
{
    let expected = text.map_values(
        |c: char|
            if rows_of_char(ascii_upper(c)) is Some {
                ascii_upper(c)
            } else {
                ' '
            },
    );
    assert forall|i: int| 0 <= i < text.len() implies decoded(encoded(text))[i] == expected[i] by {
        let up = ascii_upper(text[i]);
        if rows_of_char(up) is Some {
            lemma_char_round_trip(up);
        }
    }
    assert(decoded(encoded(text)) =~= expected);
}

} // verus!
