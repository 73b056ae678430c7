use input_validation::identifier::{
    char_digit, content_identifier, digit_char, nibble_at, ContentIdentifier, NAMESPACE,
};
use input_validation::validate_uuid;

#[test]
fn identifier_of_known_names() {
    assert_eq!(
        content_identifier(b"example.org").to_text(),
        "aad03681-8b63-5304-89e0-8ca8f49461b5"
    );
    assert_eq!(
        content_identifier(b"rust-lang.org").to_text(),
        "c66bbb60-d62e-5f17-a399-3a0bd237c503"
    );
}

#[test]
fn identifier_is_stable() {
    let jpeg = [0xFF, 0xD8, 0xFF];
    let first = content_identifier(&jpeg);
    let second = content_identifier(&jpeg);
    assert_eq!(first, second);
    assert_eq!(first.to_text(), second.to_text());
}

#[test]
fn identifier_tells_fixtures_apart() {
    let jpeg = [0xFF, 0xD8, 0xFF];
    let png = [0x89, 0x50, 0x4E, 0x47, 0x0D, 0x0A, 0x1A, 0x0A];
    assert_ne!(content_identifier(&jpeg), content_identifier(&png));
    assert_ne!(content_identifier(&jpeg), content_identifier(&[]));
}

#[test]
fn identifier_is_not_its_input() {
    let bytes = NAMESPACE.to_be_bytes();
    assert_ne!(content_identifier(&bytes).bits, NAMESPACE);
}

#[test]
fn identifier_text_is_a_valid_uuid() {
    let samples: [&[u8]; 4] = [b"", b"a", &[0xFF, 0xD8, 0xFF], &[0x1A, 0x45, 0xDF, 0xA3]];
    for bytes in samples {
        let id = content_identifier(bytes);
        assert!(validate_uuid(&id.to_text()));
        assert_eq!((id.bits >> 76) & 0xf, 5);
        assert_eq!((id.bits >> 62) & 0x3, 2);
    }
}

#[test]
fn namespace_is_that_of_the_dns() {
    let id = ContentIdentifier { bits: NAMESPACE };
    assert_eq!(id.to_text(), "6ba7b810-9dad-11d1-80b4-00c04fd430c8");
}

#[test]
fn text_shows_every_digit_in_order() {
    let id = ContentIdentifier { bits: 0x0123456789abcdef0123456789abcdef };
    assert_eq!(id.to_text(), "01234567-89ab-cdef-0123-456789abcdef");
    assert_eq!(ContentIdentifier { bits: 0 }.to_text(), "00000000-0000-0000-0000-000000000000");
    assert_eq!(
        ContentIdentifier { bits: u128::MAX }.to_text(),
        "ffffffff-ffff-ffff-ffff-ffffffffffff"
    );
    assert_eq!(ContentIdentifier { bits: 1 }.to_text(), "00000000-0000-0000-0000-000000000001");
    assert_eq!(
        ContentIdentifier { bits: 1 << 127 }.to_text(),
        "80000000-0000-0000-0000-000000000000"
    );
}

#[test]
fn parse_reads_what_to_text_writes() {
    let values = [
        0u128,
        1,
        u128::MAX,
        0x0123456789abcdef0123456789abcdef,
        0x5301963a065a596299d285846dd846ef,
        NAMESPACE,
    ];
    for bits in values {
        let id = ContentIdentifier { bits };
        assert_eq!(ContentIdentifier::parse(&id.to_text()), Some(id));
    }
}

#[test]
fn parse_reads_a_known_text() {
    assert_eq!(
        ContentIdentifier::parse("5301963a-065a-5962-99d2-85846dd846ef"),
        Some(ContentIdentifier { bits: 0x5301963a065a596299d285846dd846ef })
    );
}

#[test]
fn parse_refuses_other_spellings() {
    // upper case
    assert_eq!(ContentIdentifier::parse("5301963A-065A-5962-99D2-85846DD846EF"), None);
    // no hyphens
    assert_eq!(ContentIdentifier::parse("5301963a065a596299d285846dd846ef"), None);
    // a hyphen out of place
    assert_eq!(ContentIdentifier::parse("5301963a0-65a-5962-99d2-85846dd846ef"), None);
    // too short, too long, empty
    assert_eq!(ContentIdentifier::parse("5301963a-065a-5962-99d2-85846dd846e"), None);
    assert_eq!(ContentIdentifier::parse("5301963a-065a-5962-99d2-85846dd846eff"), None);
    assert_eq!(ContentIdentifier::parse(""), None);
    // no hexadecimal digit
    assert_eq!(ContentIdentifier::parse("5301963g-065a-5962-99d2-85846dd846ef"), None);
    assert_eq!(ContentIdentifier::parse("5301963a-065a-5962-99d2-85846dd846é"), None);
    // braces and a prefix
    assert_eq!(ContentIdentifier::parse("{5301963a-065a-5962-99d2-85846dd846ef}"), None);
    assert_eq!(ContentIdentifier::parse("urn:uuid:5301963a-065a-5962-99d2-85846dd846ef"), None);
}

#[test]
fn digits_and_their_characters() {
    let digits = "0123456789abcdef";
    for (v, c) in digits.chars().enumerate() {
        assert_eq!(digit_char(v as u8), c);
        assert_eq!(char_digit(c), Some(v as u8));
    }
    assert_eq!(char_digit('A'), None);
    assert_eq!(char_digit('F'), None);
    assert_eq!(char_digit('g'), None);
    assert_eq!(char_digit('-'), None);
    assert_eq!(char_digit('/'), None);
    assert_eq!(char_digit(':'), None);
    assert_eq!(char_digit('`'), None);
}

#[test]
fn nibble_at_each_place() {
    let bits: u128 = 0x0123456789abcdef0123456789abcdef;
    let text = "01234567-89ab-cdef-0123-456789abcdef";
    for (i, c) in text.chars().enumerate() {
        if c != '-' {
            assert_eq!(digit_char(nibble_at(bits, i)), c);
        }
    }
    assert_eq!(nibble_at(bits, 0), 0);
    assert_eq!(nibble_at(bits, 7), 7);
    assert_eq!(nibble_at(bits, 9), 8);
    assert_eq!(nibble_at(bits, 14), 12);
    assert_eq!(nibble_at(bits, 19), 0);
    assert_eq!(nibble_at(bits, 35), 15);
}

#[test]
fn different_identifiers_have_different_texts() {
    let values = [0u128, 1, 16, 1 << 64, 1 << 76, 1 << 127, u128::MAX - 1, u128::MAX];
    for a in values {
        for b in values {
            let same_text = ContentIdentifier { bits: a }.to_text()
                == ContentIdentifier { bits: b }.to_text();
            assert_eq!(same_text, a == b);
        }
    }
}

#[test]
fn version_and_variant_of_an_identifier() {
    assert!(ContentIdentifier { bits: 0x5301963a065a596299d285846dd846ef }.is_version_5());
    assert!(ContentIdentifier { bits: 0x5301963a065a5962b9d285846dd846ef }.is_version_5());
    assert!(content_identifier(b"").is_version_5());
    // version 4, version 1, another variant, nothing
    assert!(!ContentIdentifier { bits: 0xe4e14ea4dbaf4726a6661333f6922b00 }.is_version_5());
    assert!(!ContentIdentifier { bits: 0x3518e3fec3e611ec9d640242ac120002 }.is_version_5());
    assert!(!ContentIdentifier { bits: 0x5301963a065a5962c9d285846dd846ef }.is_version_5());
    assert!(!ContentIdentifier { bits: 0x5301963a065a596279d285846dd846ef }.is_version_5());
    assert!(!ContentIdentifier { bits: 0 }.is_version_5());
    assert!(!ContentIdentifier { bits: NAMESPACE }.is_version_5());
}

#[test]
fn version_5_is_what_validate_uuid_accepts() {
    let values = [
        0u128,
        u128::MAX,
        NAMESPACE,
        0x5301963a065a596299d285846dd846ef,
        0x5301963a065a5962a9d285846dd846ef,
        0x5301963a065a5962f9d285846dd846ef,
        0x5301963a065a496299d285846dd846ef,
        content_identifier(&[0xFF, 0xD8, 0xFF]).bits,
    ];
    for bits in values {
        let id = ContentIdentifier { bits };
        assert_eq!(id.is_version_5(), validate_uuid(&id.to_text()));
    }
}
