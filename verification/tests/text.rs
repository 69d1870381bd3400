use plugin_sdk::text::{format_bool, format_int, format_unsigned, parse_bool, parse_int};

#[test]
fn integers_are_written_as_the_standard_library_writes_them() {
    let samples: [i64; 12] = [
        0,
        1,
        -1,
        9,
        10,
        -10,
        12345,
        -987654321,
        i64::MAX,
        i64::MIN,
        i64::MAX - 1,
        i64::MIN + 1,
    ];
    for i in samples {
        assert_eq!(format_int(i), i.to_string());
    }
    assert_eq!(format_int(-42), "-42");
    assert_eq!(format_int(i64::MIN), "-9223372036854775808");
}

#[test]
fn unsigned_numbers_are_written_in_decimal() {
    assert_eq!(format_unsigned(0), "0");
    assert_eq!(format_unsigned(7), "7");
    assert_eq!(format_unsigned(1000), "1000");
    assert_eq!(format_unsigned(u64::MAX), "18446744073709551615");
}

#[test]
fn integers_are_read_as_the_standard_library_reads_them() {
    let samples = [
        "",
        "0",
        "-0",
        "+0",
        "5",
        "+5",
        "-5",
        "--5",
        "+-5",
        "+",
        "-",
        " 5",
        "5 ",
        "0005",
        "-0005",
        "12a",
        "a12",
        "1_000",
        "1.0",
        "9223372036854775807",
        "9223372036854775808",
        "-9223372036854775808",
        "-9223372036854775809",
        "+9223372036854775807",
        "99999999999999999999999999",
        "-99999999999999999999999999",
        "000000000000000000000000000000000001",
        "\u{0665}",
        "1\u{0661}",
        "notanumber",
    ];
    for text in samples {
        assert_eq!(parse_int(text), text.parse::<i64>().ok(), "reading {:?}", text);
    }
    assert_eq!(parse_int("-9223372036854775808"), Some(i64::MIN));
    assert_eq!(parse_int("9223372036854775808"), None);
    assert_eq!(parse_int("+17"), Some(17));
    assert_eq!(parse_int(""), None);
}

#[test]
fn an_integer_written_and_read_back_is_itself() {
    let samples: [i64; 8] = [0, 1, -1, 42, -42, i64::MAX, i64::MIN, 1_000_000_007];
    for i in samples {
        assert_eq!(parse_int(&format_int(i)), Some(i));
    }
}

#[test]
fn booleans_are_written_and_read_as_true_and_false() {
    assert_eq!(format_bool(true), "true");
    assert_eq!(format_bool(false), "false");
    assert_eq!(parse_bool("true"), Some(true));
    assert_eq!(parse_bool("false"), Some(false));
    for text in ["", "True", "TRUE", "1", "0", "yes", "true ", " false", "tru", "falsee", "t"] {
        assert_eq!(parse_bool(text), text.parse::<bool>().ok(), "reading {:?}", text);
        assert_eq!(parse_bool(text), None);
    }
    assert_eq!(parse_bool(&format_bool(true)), Some(true));
    assert_eq!(parse_bool(&format_bool(false)), Some(false));
}
