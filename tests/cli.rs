use ray_marcher::cli::{validate_int, validate_int_positive, validate_int_range, validate_strftime};

#[test]
fn int_accepts_signed_decimals() {
    assert_eq!(validate_int("12".to_string()), Ok(()));
    assert_eq!(validate_int("-7".to_string()), Ok(()));
    assert_eq!(validate_int("+7".to_string()), Ok(()));
    assert_eq!(validate_int("2147483647".to_string()), Ok(()));
}

#[test]
fn int_rejects_other_text() {
    let msg = Err("Must be valid integer".to_string());
    assert_eq!(validate_int("x".to_string()), msg);
    assert_eq!(validate_int("".to_string()), msg);
    assert_eq!(validate_int(" 1".to_string()), msg);
    assert_eq!(validate_int("2147483648".to_string()), msg);
}

#[test]
fn int_positive() {
    let msg = Err("Must be valid integer > 0".to_string());
    assert_eq!(validate_int_positive("1".to_string()), Ok(()));
    assert_eq!(validate_int_positive("64".to_string()), Ok(()));
    assert_eq!(validate_int_positive("0".to_string()), msg);
    assert_eq!(validate_int_positive("-3".to_string()), msg);
    assert_eq!(validate_int_positive("four".to_string()), msg);
}

#[test]
fn int_range_excludes_start_includes_end() {
    let msg = Err("Must be a valid integer between 0 and 10".to_string());
    assert_eq!(validate_int_range(0..10, "10".to_string()), Ok(()));
    assert_eq!(validate_int_range(0..10, "1".to_string()), Ok(()));
    assert_eq!(validate_int_range(0..10, "0".to_string()), msg);
    assert_eq!(validate_int_range(0..10, "11".to_string()), msg);
    assert_eq!(validate_int_range(0..10, "ten".to_string()), msg);
}

#[test]
fn int_range_message_with_negative_bounds() {
    assert_eq!(
        validate_int_range(-5..-1, "0".to_string()),
        Err("Must be a valid integer between -5 and -1".to_string())
    );
    assert_eq!(validate_int_range(-5..-1, "-1".to_string()), Ok(()));
}

#[test]
fn strftime_formats() {
    assert_eq!(validate_strftime("ray-marcher-%FT%H_%M_%S.png".to_string()), Ok(()));
    assert_eq!(validate_strftime("plain.png".to_string()), Ok(()));
    assert_eq!(
        validate_strftime("foo%?".to_string()),
        Err("Must be a valid format string; see chrono::format::strftime docs".to_string())
    );
}
