use pls::stack_string::{serialize_i32, Error, String};

#[test]
fn given_negative_i32_starts_with_sign() {
    let int = -7123456;
    let s_string: String<11> = int.into();
    assert_eq!(s_string.as_str(), "-7123456");
}

#[test]
fn given_positive_i32_does_not_include_sign() {
    let int = 123456;
    let s_string: String<11> = int.into();
    assert_eq!(s_string.as_str(), "123456");
}

#[test]
fn given_negative_zero_serializes_zero() {
    let int = -0;
    let s_string: String<11> = int.into();
    assert_eq!(s_string.as_str(), "0");
}

#[test]
fn given_positive_zero_serializes_zero() {
    let int = 0;
    let s_string: String<11> = int.into();
    assert_eq!(s_string.as_str(), "0");
}

#[test]
fn given_str_wont_fit_fails_to_create() {
    let input = "Lorem ipsum dolor sit amet, consectetur adipiscing elit, sed do eiusmod tempor incididunt ut labore et dolore magna aliqua.";
    let outcome: Result<String<1>, Error> = input.try_into();
    let err_string = format!(
        "Supplied data (len:{}) won't fit into buffer (len:1)",
        input.len()
    );
    assert!(outcome.is_err());
    assert_eq!(outcome.unwrap_err().to_string(), err_string);
}

#[test]
fn rendering_round_trips_through_parse() {
    for int in [
        0,
        1,
        -1,
        9,
        10,
        -10,
        99,
        100,
        4096,
        -65535,
        1_000_000_007,
        i32::MAX,
        i32::MIN + 1,
        i32::MIN,
    ] {
        let s_string: String<11> = int.into();
        assert_eq!(s_string.as_str().parse::<i32>(), Ok(int));
        assert_eq!(s_string.as_str(), format!("{}", int));
    }
}

#[test]
fn smallest_i32_fills_the_whole_buffer() {
    let s_string: String<11> = i32::MIN.into();
    assert_eq!(s_string.as_str(), "-2147483648");
    assert_eq!(s_string.len(), 11);
    assert_eq!(s_string.as_bytes(), b"-2147483648");
}

#[test]
fn negative_rendering_has_one_leading_sign() {
    let s_string: String<11> = (-40404).into();
    let text = s_string.as_str();
    assert!(text.starts_with('-'));
    assert_eq!(text.matches('-').count(), 1);
    assert!(text[1..].bytes().all(|b| b.is_ascii_digit()));
}

#[test]
fn str_that_fits_exactly_is_kept() {
    let outcome: Result<String<5>, Error> = "abcde".try_into();
    let s_string = outcome.unwrap();
    assert_eq!(s_string.as_str(), "abcde");
    assert_eq!(s_string.as_bytes(), b"abcde");
    assert_eq!(s_string.len(), 5);
}

#[test]
fn str_one_byte_too_long_is_refused_with_both_lengths() {
    let outcome: Result<String<5>, Error> = "abcdef".try_into();
    assert!(matches!(outcome, Err(Error::InvalidBufSize(6, 5))));
}

#[test]
fn capacity_counts_bytes_not_characters() {
    let fits: Result<String<2>, Error> = "é".try_into();
    assert_eq!(fits.unwrap().as_str(), "é");
    let too_long: Result<String<2>, Error> = "éa".try_into();
    assert!(matches!(too_long, Err(Error::InvalidBufSize(3, 2))));
}

#[test]
fn empty_str_fits_an_empty_buffer() {
    let outcome: Result<String<0>, Error> = "".try_into();
    let s_string = outcome.unwrap();
    assert_eq!(s_string.as_str(), "");
    assert_eq!(s_string.len(), 0);
    assert_eq!(String::<8>::new().as_str(), "");
}

#[test]
fn serialize_refuses_a_short_buffer_and_leaves_it() {
    let mut buf = [7u8; 10];
    let outcome = serialize_i32(5, &mut buf);
    assert!(matches!(outcome, Err(Error::InvalidBufSize(11, 10))));
    assert_eq!(buf, [7u8; 10]);
    assert_eq!(
        outcome.unwrap_err().to_string(),
        "Supplied data (len:11) won't fit into buffer (len:10)"
    );
}

#[test]
fn serialize_writes_the_text_and_keeps_the_rest() {
    let mut buf = [b'x'; 16];
    assert!(matches!(serialize_i32(-305, &mut buf), Ok(4)));
    assert_eq!(&buf, b"-305xxxxxxxxxxxx");
    assert!(matches!(serialize_i32(42, &mut buf), Ok(2)));
    assert_eq!(&buf, b"4205xxxxxxxxxxxx");
}

#[test]
fn to_string_copies_the_text() {
    let s_string: String<11> = (-17).into();
    assert_eq!(s_string.to_string(), "-17");
    let outcome: Result<String<8>, Error> = "héllo".try_into();
    assert_eq!(outcome.unwrap().to_string(), "héllo");
}
