use image_pager::cursor::{decode_cursor, encode_cursor, CursorError};

#[test]
fn encodes_plain_decimal() {
    assert_eq!(encode_cursor(1), "image-1");
    assert_eq!(encode_cursor(10), "image-10");
    assert_eq!(encode_cursor(0), "image-0");
    assert_eq!(encode_cursor(100000), "image-100000");
    assert_eq!(encode_cursor(2147483647), "image-2147483647");
}

#[test]
fn encodes_negative_with_sign() {
    assert_eq!(encode_cursor(-3), "image--3");
    assert_eq!(encode_cursor(-2147483648), "image--2147483648");
}

#[test]
fn round_trips_valid_ids() {
    for id in [1, 2, 9, 10, 99, 100, 12345, 99999, 100000, 2147483647] {
        assert_eq!(decode_cursor(&encode_cursor(id)), Ok(id));
    }
}

#[test]
fn rejects_malformed_cursors() {
    assert_eq!(decode_cursor("abc"), Err(CursorError::Malformed));
    assert_eq!(decode_cursor("image"), Err(CursorError::Malformed));
    assert_eq!(decode_cursor("image-x"), Err(CursorError::Malformed));
    assert_eq!(decode_cursor("image-1-2"), Err(CursorError::Malformed));
}

#[test]
fn rejects_empty_and_bare_separator() {
    assert_eq!(decode_cursor(""), Err(CursorError::Malformed));
    assert_eq!(decode_cursor("image-"), Err(CursorError::Malformed));
    assert_eq!(decode_cursor("-"), Err(CursorError::Malformed));
    assert_eq!(decode_cursor("image-+"), Err(CursorError::Malformed));
}

#[test]
fn rejects_out_of_range_values() {
    assert_eq!(decode_cursor("image-2147483648"), Err(CursorError::Malformed));
    assert_eq!(
        decode_cursor("image-99999999999999999999"),
        Err(CursorError::Malformed)
    );
}

#[test]
fn rejects_negative_value_as_third_segment() {
    // A minus sign inside the numeric part means a third segment.
    assert_eq!(decode_cursor("image--1"), Err(CursorError::Malformed));
}

#[test]
fn accepts_in_range_extremes() {
    assert_eq!(decode_cursor("image-2147483647"), Ok(2147483647));
    assert_eq!(decode_cursor("image-0"), Ok(0));
    assert_eq!(decode_cursor("image-007"), Ok(7));
}

#[test]
fn first_segment_is_unchecked() {
    // The codec deliberately ignores the first segment.
    assert_eq!(decode_cursor("x-7"), Ok(7));
    assert_eq!(decode_cursor("-5"), Ok(5));
}

#[test]
fn accepts_leading_plus_like_integer_parsing() {
    assert_eq!(decode_cursor("image-+7"), Ok(7));
}

#[test]
fn rejects_non_ascii_digits() {
    assert_eq!(decode_cursor("image-１２"), Err(CursorError::Malformed));
}
