use pnet_core::text::{
    chars_of, digit_to_char, digit_value, field_bounds, parse_component, parse_fields,
    push_decimal, push_hex_pair, push_hex_quad, FieldsError, NO_DIGIT,
};

#[test]
fn digits_have_their_values() {
    assert_eq!(digit_value('0'), 0);
    assert_eq!(digit_value('9'), 9);
    assert_eq!(digit_value('a'), 10);
    assert_eq!(digit_value('f'), 15);
    assert_eq!(digit_value('A'), 10);
    assert_eq!(digit_value('F'), 15);
    assert_eq!(digit_value('g'), NO_DIGIT);
    assert_eq!(digit_value('/'), NO_DIGIT);
    assert_eq!(digit_value(':'), NO_DIGIT);
    assert_eq!(digit_value('@'), NO_DIGIT);
    assert_eq!(digit_value('G'), NO_DIGIT);
    assert_eq!(digit_value('`'), NO_DIGIT);
    assert_eq!(digit_to_char(0), '0');
    assert_eq!(digit_to_char(9), '9');
    assert_eq!(digit_to_char(10), 'a');
    assert_eq!(digit_to_char(15), 'f');
}

#[test]
fn chars_of_keeps_every_character() {
    assert_eq!(chars_of("a:é"), vec!['a', ':', 'é']);
    assert_eq!(chars_of(""), Vec::<char>::new());
}

#[test]
fn field_bounds_splits_at_every_separator() {
    let chars = chars_of("ab::c:");
    assert_eq!(field_bounds(&chars, ':'), vec![(0, 2), (3, 3), (4, 5), (6, 6)]);
    assert_eq!(field_bounds(&[], ':'), vec![(0, 0)]);
}

#[test]
fn parse_component_reads_numbers() {
    let chars = chars_of("x+7fy");
    assert_eq!(parse_component(&chars, 1, 4, 16, 255), Some(0x7f));
    assert_eq!(parse_component(&chars, 2, 4, 16, 255), Some(0x7f));
    assert_eq!(parse_component(&chars, 2, 4, 10, 255), None);
    assert_eq!(parse_component(&chars, 1, 2, 16, 255), None);
    assert_eq!(parse_component(&chars, 2, 2, 16, 255), None);
    assert_eq!(parse_component(&chars, 0, 3, 16, 255), None);
    let big = chars_of("0000000256");
    assert_eq!(parse_component(&big, 0, 10, 10, 255), None);
    assert_eq!(parse_component(&big, 0, 9, 10, 255), Some(25));
    assert_eq!(parse_component(&big, 0, 10, 10, 256), Some(256));
}

#[test]
fn parse_fields_counts_and_reads() {
    let chars = chars_of("1.20.255");
    assert_eq!(parse_fields(&chars, '.', 10, 255, 3), Ok(vec![1, 20, 255]));
    assert_eq!(parse_fields(&chars, '.', 10, 255, 2), Err(FieldsError::TooMany));
    assert_eq!(parse_fields(&chars, '.', 10, 255, 4), Err(FieldsError::TooFew));
    assert_eq!(parse_fields(&chars, '.', 10, 254, 3), Err(FieldsError::Invalid));
    assert_eq!(parse_fields(&chars, '.', 10, 254, 2), Err(FieldsError::TooMany));
    assert_eq!(parse_fields(&chars, '.', 10, 255, 0), Err(FieldsError::TooMany));
}

#[test]
fn push_helpers_append_digits() {
    let mut s = String::from("x");
    push_hex_pair(&mut s, 0x0a);
    push_hex_pair(&mut s, 0xf0);
    assert_eq!(s, "x0af0");
    let mut q = String::new();
    push_hex_quad(&mut q, 0x01b2);
    push_hex_quad(&mut q, 0xffff);
    assert_eq!(q, "01b2ffff");
    let mut d = String::new();
    push_decimal(&mut d, 0);
    push_decimal(&mut d, 7);
    push_decimal(&mut d, 42);
    push_decimal(&mut d, 105);
    push_decimal(&mut d, 255);
    assert_eq!(d, "0742105255");
}
