use punch_card_core::ebcdic::{ebcdic_to_hollerith, hollerith_to_ebcdic, EBCDIC_SPACE};
use punch_card_core::hollerith::HollerithCode;

#[test]
fn test_ebcdic_space() {
    let code = HollerithCode::empty();
    assert_eq!(hollerith_to_ebcdic(&code), 0x40);

    let decoded = ebcdic_to_hollerith(0x40);
    assert_eq!(decoded.rows.len(), 0);
}

#[test]
fn test_ebcdic_digits() {
    // Test '0' (0xF0 -> row 0)
    let code_0 = HollerithCode::new(vec![0]);
    assert_eq!(hollerith_to_ebcdic(&code_0), 0xF0);

    // Test '5' (0xF5 -> row 5)
    let code_5 = HollerithCode::new(vec![5]);
    assert_eq!(hollerith_to_ebcdic(&code_5), 0xF5);

    // Test '9' (0xF9 -> row 9)
    let code_9 = HollerithCode::new(vec![9]);
    assert_eq!(hollerith_to_ebcdic(&code_9), 0xF9);
}

#[test]
fn test_ebcdic_letters_a_i() {
    // Test 'A' (0xC1 -> rows 12+1)
    let code_a = HollerithCode::new(vec![12, 1]);
    assert_eq!(hollerith_to_ebcdic(&code_a), 0xC1);

    // Test 'E' (0xC5 -> rows 12+5)
    let code_e = HollerithCode::new(vec![12, 5]);
    assert_eq!(hollerith_to_ebcdic(&code_e), 0xC5);
}

#[test]
fn test_ebcdic_letters_j_r() {
    // Test 'J' (0xD1 -> rows 11+1)
    let code_j = HollerithCode::new(vec![11, 1]);
    assert_eq!(hollerith_to_ebcdic(&code_j), 0xD1);
}

#[test]
fn test_ebcdic_letters_s_z() {
    // Test 'S' (0xE2 -> rows 0+2)
    let code_s = HollerithCode::new(vec![0, 2]);
    assert_eq!(hollerith_to_ebcdic(&code_s), 0xE2);

    // Test 'Z' (0xE9 -> rows 0+9)
    let code_z = HollerithCode::new(vec![0, 9]);
    assert_eq!(hollerith_to_ebcdic(&code_z), 0xE9);
}

#[test]
fn test_ebcdic_roundtrip() {
    // Test A-Z
    for ebcdic in [
        0xC1, 0xC2, 0xC3, 0xC4, 0xC5, 0xC6, 0xC7, 0xC8, 0xC9, 0xD1, 0xD2, 0xD3, 0xD4, 0xD5,
        0xD6, 0xD7, 0xD8, 0xD9, 0xE2, 0xE3, 0xE4, 0xE5, 0xE6, 0xE7, 0xE8, 0xE9,
    ] {
        let hollerith = ebcdic_to_hollerith(ebcdic);
        let result = hollerith_to_ebcdic(&hollerith);
        assert_eq!(result, ebcdic, "Roundtrip failed for 0x{:02X}", ebcdic);
    }

    // Test 0-9
    for ebcdic in 0xF0..=0xF9 {
        let hollerith = ebcdic_to_hollerith(ebcdic);
        let result = hollerith_to_ebcdic(&hollerith);
        assert_eq!(result, ebcdic, "Roundtrip failed for 0x{:02X}", ebcdic);
    }
}

fn is_card_code(byte: u8) -> bool {
    matches!(byte, 0x40 | 0x4C | 0x60 | 0x61 | 0xF0..=0xF9 | 0xC1..=0xC9 | 0xD1..=0xD9 | 0xE2..=0xE9)
}

#[test]
fn test_ebcdic_space_constant() {
    assert_eq!(EBCDIC_SPACE, 0x40);
}

#[test]
fn test_ebcdic_signs() {
    assert_eq!(hollerith_to_ebcdic(&HollerithCode::new(vec![12])), 0x4C);
    assert_eq!(hollerith_to_ebcdic(&HollerithCode::new(vec![11])), 0x60);
    assert_eq!(hollerith_to_ebcdic(&HollerithCode::new(vec![0, 1])), 0x61);
    assert_eq!(ebcdic_to_hollerith(0x4C).rows, vec![12]);
    assert_eq!(ebcdic_to_hollerith(0x60).rows, vec![11]);
    assert_eq!(ebcdic_to_hollerith(0x61).rows, vec![0, 1]);
}

#[test]
fn test_ebcdic_exact_patterns() {
    assert_eq!(ebcdic_to_hollerith(0xF7).rows, vec![7]);
    assert_eq!(ebcdic_to_hollerith(0xC9).rows, vec![9, 12]);
    assert_eq!(ebcdic_to_hollerith(0xD4).rows, vec![4, 11]);
    assert_eq!(ebcdic_to_hollerith(0xE2).rows, vec![0, 2]);
}

#[test]
fn test_ebcdic_fallback_for_patterns_outside_the_table() {
    // Three punches, a sign of the character table, a lone row that is none,
    // pairs outside the table, and a list that is not ascending.
    assert_eq!(hollerith_to_ebcdic(&HollerithCode::new(vec![12, 3, 8])), 0x40);
    assert_eq!(hollerith_to_ebcdic(&HollerithCode::new(vec![2, 8])), 0x40);
    assert_eq!(hollerith_to_ebcdic(&HollerithCode::new(vec![10])), 0x40);
    assert_eq!(hollerith_to_ebcdic(&HollerithCode::new(vec![11, 12])), 0x40);
    assert_eq!(hollerith_to_ebcdic(&HollerithCode::new(vec![0, 12])), 0x40);
    assert_eq!(hollerith_to_ebcdic(&HollerithCode::new(vec![0, 11])), 0x40);
    assert_eq!(hollerith_to_ebcdic(&HollerithCode { rows: vec![12, 1] }), 0x40);
}

#[test]
fn test_ebcdic_unknown_bytes_are_blank() {
    for byte in 0u8..=255 {
        let code = ebcdic_to_hollerith(byte);
        if is_card_code(byte) && byte != 0x40 {
            assert!(!code.rows.is_empty(), "0x{:02X}", byte);
        } else {
            assert!(code.rows.is_empty(), "0x{:02X}", byte);
        }
    }
    assert!(ebcdic_to_hollerith(0xC0).rows.is_empty());
    assert!(ebcdic_to_hollerith(0xE1).rows.is_empty());
    assert!(ebcdic_to_hollerith(0xFA).rows.is_empty());
}

#[test]
fn test_ebcdic_every_byte_comes_back_or_becomes_space() {
    for byte in 0u8..=255 {
        let back = hollerith_to_ebcdic(&ebcdic_to_hollerith(byte));
        if is_card_code(byte) {
            assert_eq!(back, byte);
        } else {
            assert_eq!(back, 0x40);
        }
    }
}

#[test]
fn test_ebcdic_produced_bytes_round_trip() {
    // Every ascending list of up to three rows out of 0..=13.
    let mut lists: Vec<Vec<u8>> = vec![vec![]];
    for a in 0u8..14 {
        lists.push(vec![a]);
        for b in (a + 1)..14 {
            lists.push(vec![a, b]);
            for c in (b + 1)..14 {
                lists.push(vec![a, b, c]);
            }
        }
    }
    let mut produced = std::collections::BTreeSet::new();
    for rows in lists {
        let byte = hollerith_to_ebcdic(&HollerithCode::new(rows));
        assert!(is_card_code(byte));
        assert_eq!(hollerith_to_ebcdic(&ebcdic_to_hollerith(byte)), byte);
        produced.insert(byte);
    }
    assert_eq!(produced.len(), 40);
}
