use input_validation::text::{
    char_is_digit, char_is_hex_digit, char_is_letter, chars_of, range_is, range_is_str, same_text,
};

#[test]
fn chars_of_gives_each_character() {
    assert_eq!(chars_of(""), Vec::<char>::new());
    assert_eq!(chars_of("a-b"), vec!['a', '-', 'b']);
    assert_eq!(chars_of("àé"), vec!['à', 'é']);
}

#[test]
fn character_classes() {
    for c in "0123456789".chars() {
        assert!(char_is_digit(c) && char_is_hex_digit(c) && !char_is_letter(c));
    }
    for c in "abcdefABCDEF".chars() {
        assert!(!char_is_digit(c) && char_is_hex_digit(c) && char_is_letter(c));
    }
    for c in "ghxyzGHXYZ".chars() {
        assert!(!char_is_digit(c) && !char_is_hex_digit(c) && char_is_letter(c));
    }
    for c in "/:@[`{-. é٣".chars() {
        assert!(!char_is_digit(c) && !char_is_hex_digit(c) && !char_is_letter(c));
    }
}

#[test]
fn ranges_are_compared_character_by_character() {
    let chars = chars_of("example.com");
    assert!(range_is_str(&chars, 7, 11, ".com"));
    assert!(!range_is_str(&chars, 7, 11, ".net"));
    assert!(!range_is_str(&chars, 7, 11, ".co"));
    assert!(!range_is_str(&chars, 7, 10, ".com"));
    assert!(range_is_str(&chars, 3, 3, ""));
    assert!(range_is(&chars, 0, 7, &chars_of("example")));
    assert!(!range_is(&chars, 0, 7, &chars_of("exemple")));
}

#[test]
fn same_text_is_equality() {
    assert!(same_text("jpg", "jpg"));
    assert!(same_text("", ""));
    assert!(!same_text("jpg", "jpeg"));
    assert!(!same_text("jpg", "JPG"));
    assert!(!same_text("jpg", ""));
}
