use punch_card_core::hollerith::HollerithCode;
use punch_card_core::ibm1130::opcodes;
use punch_card_core::ibm1130::{
    generate_example_object, generate_example_source, validate_object_format,
    validate_source_format, EXAMPLE_PATTERNS, EXAMPLE_SOURCE,
};
use punch_card_core::punch_card::{CardType, Column, PunchCard};

#[test]
fn test_generate_example_source() {
    let card = generate_example_source();
    assert_eq!(card.card_type(), CardType::Text);
    assert!(card.punched_count() > 0);

    // Check that it contains expected content
    let text = card.to_text();
    assert!(text.contains("START"));
}

#[test]
fn test_generate_example_object() {
    let card = generate_example_object();
    assert_eq!(card.card_type(), CardType::Binary);
    assert!(card.punched_count() > 0);
}

#[test]
fn test_validate_source_format_valid() {
    let card = PunchCard::from_text("LOOP  LD   X");
    assert!(validate_source_format(&card).is_ok());
}

#[test]
fn test_validate_source_format_invalid_type() {
    let card = PunchCard::from_binary(&[0x00]);
    assert!(validate_source_format(&card).is_err());
}

#[test]
fn test_validate_object_format_valid() {
    let card = PunchCard::from_binary(&[0xC0, 0x00]);
    assert!(validate_object_format(&card).is_ok());
}

#[test]
fn test_validate_object_format_invalid_type() {
    let card = PunchCard::from_text("HELLO");
    assert!(validate_object_format(&card).is_err());
}

#[test]
fn test_validate_object_format_blank() {
    let card = PunchCard::new(CardType::Binary);
    assert!(validate_object_format(&card).is_err());
}

#[test]
fn test_example_source_text() {
    assert_eq!(
        EXAMPLE_SOURCE,
        "START DC   0             IBM 1130 EXAMPLE PROGRAM"
    );
    let card = generate_example_source();
    assert_eq!(card, PunchCard::from_text(EXAMPLE_SOURCE));
    assert_eq!(card.to_text(), format!("{:<80}", EXAMPLE_SOURCE));
    assert_eq!(card.punched_count(), 29);
}

#[test]
fn test_example_object_columns() {
    let card = generate_example_object();
    assert_eq!(EXAMPLE_PATTERNS.len(), 72);
    assert_eq!(card.punched_count(), 72);
    for (i, pattern) in EXAMPLE_PATTERNS.iter().enumerate() {
        let mut slots = [false; 12];
        for k in 0..12 {
            slots[k] = pattern & (1 << k) != 0;
        }
        assert_eq!(
            *card.get_column(i).unwrap(),
            Column::from_hollerith(HollerithCode::from_array(slots)),
            "column {}",
            i
        );
    }
    for i in 72..80 {
        assert_eq!(*card.get_column(i).unwrap(), Column::new());
    }
    // 0x0E49 sets the slots 0, 3, 6, 9, 10 and 11: the rows 12, 1, 4, 7, 8 and 9.
    assert_eq!(
        card.get_column(0).unwrap().punches.rows,
        vec![1, 4, 7, 8, 9, 12]
    );
    // 0x0725 sets the slots 0, 2, 5, 8, 9 and 10: the rows 12, 0, 3, 6, 7 and 8.
    assert_eq!(
        card.get_column(71).unwrap().punches.rows,
        vec![0, 3, 6, 7, 8, 12]
    );
}

#[test]
fn test_example_object_dense_bytes() {
    let data = generate_example_object().to_binary();
    assert_eq!(data.len(), 108);
    // Columns 0 and 1 are 0xE49 and 0xC31: the bytes 0x49, 0x1E, 0xC3.
    assert_eq!(&data[..3], &[0x49, 0x1E, 0xC3]);
    assert_eq!(PunchCard::from_binary(&data), generate_example_object());
}

#[test]
fn test_validate_source_format_messages() {
    assert_eq!(validate_source_format(&PunchCard::from_text("")), Ok(()));
    assert_eq!(
        validate_source_format(&PunchCard::new(CardType::Binary)),
        Err("Source cards must be text type".to_string())
    );
    assert_eq!(validate_source_format(&generate_example_source()), Ok(()));
    assert!(validate_source_format(&generate_example_object()).is_err());
}

#[test]
fn test_validate_object_format_messages() {
    assert_eq!(
        validate_object_format(&PunchCard::from_text("HELLO")),
        Err("Object cards must be binary type".to_string())
    );
    // The kind is looked at first.
    assert_eq!(
        validate_object_format(&PunchCard::new(CardType::Text)),
        Err("Object cards must be binary type".to_string())
    );
    assert_eq!(
        validate_object_format(&PunchCard::new(CardType::Binary)),
        Err("Object card cannot be blank".to_string())
    );
    assert_eq!(
        validate_object_format(&PunchCard::from_binary(&[0u8; 108])),
        Err("Object card cannot be blank".to_string())
    );
    assert_eq!(validate_object_format(&generate_example_object()), Ok(()));
    assert_eq!(validate_object_format(&PunchCard::from_binary(&[1])), Ok(()));
}

#[test]
fn test_opcodes() {
    assert_eq!(opcodes::LD, "LD");
    assert_eq!(opcodes::STO, "STO");
    assert_eq!(opcodes::ADD, "ADD");
    assert_eq!(opcodes::SUB, "SUB");
    assert_eq!(opcodes::MPY, "MPY");
    assert_eq!(opcodes::DIV, "DIV");
    assert_eq!(opcodes::BSC, "BSC");
    assert_eq!(opcodes::DC, "DC");
    assert_eq!(opcodes::DSA, "DSA");
    assert_eq!(opcodes::END, "END");
}
