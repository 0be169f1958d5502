use punch_card_core::hollerith::{
    char_to_hollerith, decode_string, encode_string, hollerith_to_char, HollerithCode,
};

#[test]
fn test_hollerith_code_new() {
    let code = HollerithCode::new(vec![12, 1]);
    assert_eq!(code.rows, vec![1, 12]);
}

#[test]
fn test_hollerith_code_dedup() {
    let code = HollerithCode::new(vec![12, 1, 12, 1]);
    assert_eq!(code.rows, vec![1, 12]);
}

#[test]
fn test_hollerith_code_empty() {
    let code = HollerithCode::empty();
    assert!(code.rows.is_empty());
}

#[test]
fn test_is_punched() {
    let code = HollerithCode::new(vec![12, 1]);
    assert!(code.is_punched(12));
    assert!(code.is_punched(1));
    assert!(!code.is_punched(2));
}

#[test]
fn test_as_array() {
    let code = HollerithCode::new(vec![12, 1]);
    let arr = code.as_array();
    assert!(arr[0]); // row 12
    assert!(arr[3]); // row 1
    assert!(!arr[4]); // row 2
}

#[test]
fn test_from_array() {
    let mut arr = [false; 12];
    arr[0] = true; // row 12
    arr[3] = true; // row 1
    let code = HollerithCode::from_array(arr);
    assert_eq!(code.rows, vec![1, 12]);
}

#[test]
fn test_char_to_hollerith_digits() {
    assert_eq!(char_to_hollerith('0').unwrap().rows, vec![0]);
    assert_eq!(char_to_hollerith('1').unwrap().rows, vec![1]);
    assert_eq!(char_to_hollerith('9').unwrap().rows, vec![9]);
}

#[test]
fn test_char_to_hollerith_letters_a_i() {
    assert_eq!(char_to_hollerith('A').unwrap().rows, vec![1, 12]);
    assert_eq!(char_to_hollerith('E').unwrap().rows, vec![5, 12]);
    assert_eq!(char_to_hollerith('I').unwrap().rows, vec![9, 12]);
}

#[test]
fn test_char_to_hollerith_letters_j_r() {
    assert_eq!(char_to_hollerith('J').unwrap().rows, vec![1, 11]);
    assert_eq!(char_to_hollerith('M').unwrap().rows, vec![4, 11]);
    assert_eq!(char_to_hollerith('R').unwrap().rows, vec![9, 11]);
}

#[test]
fn test_char_to_hollerith_letters_s_z() {
    assert_eq!(char_to_hollerith('S').unwrap().rows, vec![0, 2]);
    assert_eq!(char_to_hollerith('V').unwrap().rows, vec![0, 5]);
    assert_eq!(char_to_hollerith('Z').unwrap().rows, vec![0, 9]);
}

#[test]
fn test_char_to_hollerith_special() {
    assert_eq!(char_to_hollerith(' ').unwrap().rows, vec![]);
    assert_eq!(char_to_hollerith('&').unwrap().rows, vec![12]);
    assert_eq!(char_to_hollerith('-').unwrap().rows, vec![11]);
    assert_eq!(char_to_hollerith('/').unwrap().rows, vec![0, 1]);
}

#[test]
fn test_char_to_hollerith_with_8_punch() {
    assert_eq!(char_to_hollerith('.').unwrap().rows, vec![3, 8, 12]);
    assert_eq!(char_to_hollerith('(').unwrap().rows, vec![5, 8, 12]);
    assert_eq!(char_to_hollerith('*').unwrap().rows, vec![4, 8, 11]);
    assert_eq!(char_to_hollerith(',').unwrap().rows, vec![0, 3, 8]);
}

#[test]
fn test_char_to_hollerith_unsupported() {
    assert!(char_to_hollerith('~').is_none());
    assert!(char_to_hollerith('£').is_none());
}

#[test]
fn test_hollerith_to_char_digits() {
    assert_eq!(
        hollerith_to_char(&HollerithCode::new(vec![0])).unwrap(),
        '0'
    );
    assert_eq!(
        hollerith_to_char(&HollerithCode::new(vec![5])).unwrap(),
        '5'
    );
    assert_eq!(
        hollerith_to_char(&HollerithCode::new(vec![9])).unwrap(),
        '9'
    );
}

#[test]
fn test_hollerith_to_char_letters() {
    assert_eq!(
        hollerith_to_char(&HollerithCode::new(vec![12, 1])).unwrap(),
        'A'
    );
    assert_eq!(
        hollerith_to_char(&HollerithCode::new(vec![11, 4])).unwrap(),
        'M'
    );
    assert_eq!(
        hollerith_to_char(&HollerithCode::new(vec![0, 9])).unwrap(),
        'Z'
    );
}

#[test]
fn test_hollerith_to_char_space() {
    assert_eq!(hollerith_to_char(&HollerithCode::empty()).unwrap(), ' ');
}

#[test]
fn test_hollerith_to_char_special() {
    assert_eq!(
        hollerith_to_char(&HollerithCode::new(vec![12, 3, 8])).unwrap(),
        '.'
    );
    assert_eq!(
        hollerith_to_char(&HollerithCode::new(vec![11, 4, 8])).unwrap(),
        '*'
    );
    assert_eq!(
        hollerith_to_char(&HollerithCode::new(vec![0, 3, 8])).unwrap(),
        ','
    );
}

#[test]
fn test_encode_decode_roundtrip() {
    let original = "HELLO WORLD 123";
    let encoded = encode_string(original);
    let decoded = decode_string(&encoded);
    assert_eq!(decoded, original);
}

#[test]
fn test_encode_string_lowercase() {
    let encoded = encode_string("hello");
    let decoded = decode_string(&encoded);
    assert_eq!(decoded, "HELLO");
}

#[test]
fn test_encode_string_unsupported_chars() {
    let encoded = encode_string("A~B");
    let decoded = decode_string(&encoded);
    assert_eq!(decoded, "A B"); // Unsupported char becomes space
}

#[test]
fn test_decode_invalid_pattern() {
    let invalid_code = HollerithCode::new(vec![12, 11, 0]); // Invalid combination
    assert_eq!(hollerith_to_char(&invalid_code), None);
}

/// Every character of the keypunch's set, in the order of the table.
const KEYPUNCH_SET: &str =
    "0123456789ABCDEFGHIJKLMNOPQRSTUVWXYZ &-/.<(+|!$*);\u{ac},%_>?:#@'=\"";

#[test]
fn test_keypunch_set_has_62_characters() {
    assert_eq!(KEYPUNCH_SET.chars().count(), 62);
    let supported = (0u32..0x11_0000)
        .filter_map(char::from_u32)
        .filter(|c| char_to_hollerith(*c).is_some())
        .count();
    assert_eq!(supported, 62);
}

#[test]
fn test_every_supported_char_round_trips() {
    for c in KEYPUNCH_SET.chars() {
        let code = char_to_hollerith(c).unwrap();
        assert_eq!(hollerith_to_char(&code), Some(c), "character {:?}", c);
    }
}

#[test]
fn test_every_pattern_with_a_char_round_trips() {
    // All ascending lists of up to four rows out of 0..=13.
    let mut lists: Vec<Vec<u8>> = vec![vec![]];
    for a in 0u8..14 {
        lists.push(vec![a]);
        for b in (a + 1)..14 {
            lists.push(vec![a, b]);
            for c in (b + 1)..14 {
                lists.push(vec![a, b, c]);
                for d in (c + 1)..14 {
                    lists.push(vec![a, b, c, d]);
                }
            }
        }
    }
    let mut with_char = 0;
    for rows in lists {
        let code = HollerithCode::new(rows.clone());
        assert_eq!(code.rows, rows);
        if let Some(c) = hollerith_to_char(&code) {
            with_char += 1;
            assert_eq!(char_to_hollerith(c), Some(code));
        } else {
            assert_eq!(decode_string(&[code]), "?");
        }
    }
    assert_eq!(with_char, 62);
}

#[test]
fn test_supported_patterns_are_canonical_rows() {
    for c in KEYPUNCH_SET.chars() {
        let rows = char_to_hollerith(c).unwrap().rows;
        assert!(rows.windows(2).all(|w| w[0] < w[1]));
        assert!(rows.iter().all(|r| *r <= 9 || *r == 11 || *r == 12));
    }
}

#[test]
fn test_lowercase_letters_have_no_pattern_of_their_own() {
    assert!(char_to_hollerith('a').is_none());
    assert!(char_to_hollerith('z').is_none());
}

#[test]
fn test_logical_not_sign() {
    assert_eq!(char_to_hollerith('¬').unwrap().rows, vec![7, 8, 11]);
    assert_eq!(
        hollerith_to_char(&HollerithCode::new(vec![11, 7, 8])),
        Some('¬')
    );
}

#[test]
fn test_row_8_signs() {
    assert_eq!(char_to_hollerith(':').unwrap().rows, vec![2, 8]);
    assert_eq!(char_to_hollerith('#').unwrap().rows, vec![3, 8]);
    assert_eq!(char_to_hollerith('@').unwrap().rows, vec![4, 8]);
    assert_eq!(char_to_hollerith('\'').unwrap().rows, vec![5, 8]);
    assert_eq!(char_to_hollerith('=').unwrap().rows, vec![6, 8]);
    assert_eq!(char_to_hollerith('"').unwrap().rows, vec![7, 8]);
    assert_eq!(char_to_hollerith('$').unwrap().rows, vec![3, 8, 11]);
    assert_eq!(char_to_hollerith('?').unwrap().rows, vec![0, 7, 8]);
}

#[test]
fn test_encode_is_case_insensitive() {
    assert_eq!(encode_string("hello"), encode_string("HELLO"));
    assert_eq!(encode_string("MiXeD 42"), encode_string("mixed 42"));
}

#[test]
fn test_encode_string_exact_patterns() {
    let encoded = encode_string("a~ 9.");
    assert_eq!(encoded.len(), 5);
    assert_eq!(encoded[0].rows, vec![1, 12]);
    assert_eq!(encoded[1].rows, vec![]);
    assert_eq!(encoded[2].rows, vec![]);
    assert_eq!(encoded[3].rows, vec![9]);
    assert_eq!(encoded[4].rows, vec![3, 8, 12]);
}

#[test]
fn test_encode_string_only_ascii_letters_are_upcased() {
    // 'é' has the upper-case form 'É', but not in ASCII: it stays, and has no pattern.
    let encoded = encode_string("é");
    assert_eq!(encoded.len(), 1);
    assert!(encoded[0].rows.is_empty());
}

#[test]
fn test_encode_and_decode_empty() {
    assert!(encode_string("").is_empty());
    assert_eq!(decode_string(&[]), "");
}

#[test]
fn test_decode_string_uses_question_mark() {
    let codes = vec![
        HollerithCode::new(vec![12, 1]),
        HollerithCode::new(vec![1, 2, 3, 4]),
        HollerithCode::new(vec![13]),
        HollerithCode::new(vec![0, 7, 8]),
    ];
    assert_eq!(decode_string(&codes), "A???");
}

#[test]
fn test_unsorted_rows_have_no_char() {
    // A pattern built around `new` keeps the order it was given.
    let code = HollerithCode { rows: vec![12, 1] };
    assert_eq!(hollerith_to_char(&code), None);
    assert_eq!(hollerith_to_char(&HollerithCode::new(vec![12, 1])), Some('A'));
}

#[test]
fn test_new_sorts_and_dedups_any_bytes() {
    let code = HollerithCode::new(vec![200, 10, 3, 3, 0, 200, 12]);
    assert_eq!(code.rows, vec![0, 3, 10, 12, 200]);
    assert_eq!(HollerithCode::new(vec![]).rows, Vec::<u8>::new());
    assert_eq!(HollerithCode::new(vec![7, 7, 7]).rows, vec![7]);
}

#[test]
fn test_equality_is_by_row_set() {
    assert_eq!(
        HollerithCode::new(vec![8, 12, 3]),
        HollerithCode::new(vec![3, 3, 12, 8, 8])
    );
    assert_ne!(HollerithCode::new(vec![8, 12]), HollerithCode::new(vec![8]));
}

#[test]
fn test_clone_keeps_rows() {
    let code = HollerithCode::new(vec![11, 4, 8]);
    let copy = code.clone();
    assert_eq!(copy, code);
    assert_eq!(copy.rows, vec![4, 8, 11]);
}

#[test]
fn test_is_punched_on_empty_and_other_rows() {
    assert!(!HollerithCode::empty().is_punched(0));
    let code = HollerithCode::new(vec![10, 200]);
    assert!(code.is_punched(10));
    assert!(code.is_punched(200));
    assert!(!code.is_punched(12));
}

#[test]
fn test_as_array_slot_order() {
    let expected_rows: [u8; 12] = [12, 11, 0, 1, 2, 3, 4, 5, 6, 7, 8, 9];
    for (slot, row) in expected_rows.iter().enumerate() {
        let arr = HollerithCode::new(vec![*row]).as_array();
        for k in 0..12 {
            assert_eq!(arr[k], k == slot, "row {} slot {}", row, k);
        }
    }
}

#[test]
fn test_as_array_ignores_what_is_no_row() {
    let arr = HollerithCode::new(vec![10, 13, 255]).as_array();
    assert_eq!(arr, [false; 12]);
    let arr = HollerithCode::new(vec![10, 9]).as_array();
    let mut expected = [false; 12];
    expected[11] = true;
    assert_eq!(arr, expected);
}

#[test]
fn test_from_array_all_and_none() {
    assert_eq!(HollerithCode::from_array([false; 12]).rows, Vec::<u8>::new());
    assert_eq!(
        HollerithCode::from_array([true; 12]).rows,
        vec![0, 1, 2, 3, 4, 5, 6, 7, 8, 9, 11, 12]
    );
}

#[test]
fn test_positional_round_trip_all_slot_sets() {
    for bits in 0u32..4096 {
        let mut arr = [false; 12];
        for k in 0..12 {
            arr[k] = bits & (1 << k) != 0;
        }
        let code = HollerithCode::from_array(arr);
        assert!(code.rows.windows(2).all(|w| w[0] < w[1]));
        assert_eq!(code.rows.len() as u32, bits.count_ones());
        assert_eq!(code.as_array(), arr);
        assert_eq!(HollerithCode::from_array(code.as_array()), code);
    }
}

#[test]
fn test_positional_round_trip_drops_what_is_no_row() {
    let code = HollerithCode::new(vec![10]);
    assert_eq!(
        HollerithCode::from_array(code.as_array()),
        HollerithCode::empty()
    );
    let code = HollerithCode::new(vec![5, 10, 12, 40]);
    assert_eq!(HollerithCode::from_array(code.as_array()).rows, vec![5, 12]);
}
