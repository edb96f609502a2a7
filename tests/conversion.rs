use base_convert::convert::{check_args, convert_value};
use base_convert::decode::{base_to_dec, parse_digits};
use base_convert::digit::{char_map, map_char};
use base_convert::encode::dec_to_base;
use base_convert::error::ConvertError;

fn args(a: &[&str]) -> Vec<String> {
    a.iter().map(|s| s.to_string()).collect()
}

#[test]
fn dec_to_base_test() {
    let vals: Vec<(usize, &str)> = vec![
        (0, "0"),
        (10, "a"),
        (15, "f"),
        (256, "100"),
        (4660, "1234"),
        (65535, "ffff"),
    ];

    for v in vals {
        assert_eq!(dec_to_base(v.0, 16), v.1);
    }
}

#[test]
fn base_to_dec_test() {
    let vals: Vec<(&str, usize)> = vec![
        ("0", 0),
        ("a", 10),
        ("f", 15),
        ("100", 256),
        ("1234", 4660),
        ("ffff", 65535),
    ];

    for v in vals {
        assert_eq!(base_to_dec(v.0, 16), Ok(v.1));
    }
}

#[test]
fn char_map_test() {
    let vals: Vec<(u8, Option<char>)> = vec![
        (0, Some('0')),
        (5, Some('5')),
        (10, Some('a')),
        (15, Some('f')),
        (100, None),
    ];

    for v in vals {
        assert_eq!(char_map(v.0), v.1);
    }
}

#[test]
fn map_char_test() {
    let vals: Vec<(char, Option<u8>)> = vec![
        ('a', Some(10)),
        ('0', Some(0)),
        ('f', Some(15)),
        ('5', Some(5)),
        ('z', Some(35)),
        ('Z', Some(35)),
    ];

    for v in vals {
        assert_eq!(map_char(v.0), v.1);
    }
}

#[test]
fn convert_value_test() {
    let vals: Vec<((usize, usize), &str, &str)> = vec![
        ((10, 10), "100", "100"),
        ((10, 16), "10", "a"),
        ((10, 16), "4660", "1234"),
        ((10, 8), "668", "1234"),
        ((8, 10), "1234", "668"),
        ((8, 16), "100", "40"),
        ((16, 10), "0xffff", "65535"),
        ((10, 16), "-10", "-a"),
        ((10, 30), "1000", "13a"),
        ((30, 10), "13a", "1000"),
    ];

    for v in vals {
        assert_eq!(convert_value(v.0, v.1), Ok(v.2.to_string()));
    }
}

#[test]
fn digit_codec_is_inverse_on_all_digits() {
    for d in 0u8..36 {
        let c = char_map(d).unwrap();
        assert_eq!(map_char(c), Some(d));
    }
    assert_eq!(char_map(35), Some('z'));
    assert_eq!(char_map(36), None);
    assert_eq!(map_char('-'), None);
    assert_eq!(map_char('A'), Some(10));
}

#[test]
fn zero_is_written_zero_in_every_base() {
    for b in 2usize..=36 {
        assert_eq!(dec_to_base(0, b), "0");
    }
}

#[test]
fn round_trip_through_every_base() {
    let values: Vec<usize> = vec![0, 1, 35, 36, 255, 4660, 65535, 1_000_000_007, usize::MAX];
    for b in 2usize..=36 {
        for &m in &values {
            assert_eq!(base_to_dec(&dec_to_base(m, b), b), Ok(m));
        }
    }
}

#[test]
fn encoder_writes_most_significant_digit_first() {
    assert_eq!(dec_to_base(6, 2), "110");
    assert_eq!(dec_to_base(1000, 30), "13a");
    assert_eq!(dec_to_base(35, 36), "z");
    assert_eq!(dec_to_base(36, 36), "10");
}

#[test]
fn sign_is_carried_through() {
    let cases: Vec<((usize, usize), &str)> = vec![
        ((10, 16), "255"),
        ((16, 2), "ff"),
        ((2, 36), "0b1111"),
        ((8, 10), "0"),
        ((16, 10), "xyz"),
    ];
    for (bases, v) in cases {
        let neg = format!("-{}", v);
        let expected = convert_value(bases, v).map(|s| format!("-{}", s));
        assert_eq!(convert_value(bases, &neg), expected);
    }
    assert_eq!(convert_value((16, 2), "-ff"), Ok("-11111111".to_string()));
}

#[test]
fn scenarios_convert_as_stated() {
    assert_eq!(convert_value((10, 10), "100"), Ok("100".to_string()));
    assert_eq!(convert_value((10, 16), "4660"), Ok("1234".to_string()));
    assert_eq!(convert_value((8, 10), "1234"), Ok("668".to_string()));
    assert_eq!(convert_value((16, 10), "0xffff"), Ok("65535".to_string()));
    assert_eq!(convert_value((10, 30), "1000"), Ok("13a".to_string()));
    assert_eq!(convert_value((10, 16), "-10"), Ok("-a".to_string()));
}

#[test]
fn radix_prefix_is_dropped_whatever_the_base() {
    assert_eq!(base_to_dec("0b101", 2), Ok(5));
    assert_eq!(base_to_dec("0o17", 8), Ok(15));
    assert_eq!(base_to_dec("0x10", 8), Ok(8));
    assert_eq!(base_to_dec("0", 2), Ok(0));
    assert_eq!(base_to_dec("0x", 16), Ok(0));
    assert_eq!(base_to_dec("0b", 2), Ok(0));
    assert_eq!(base_to_dec("0o", 8), Ok(0));
    assert_eq!(base_to_dec("0b1", 36), Ok(1));
    assert_eq!(base_to_dec("0x10", 2), Ok(2));
    assert_eq!(convert_value((16, 10), "0x"), Ok("0".to_string()));
    assert_eq!(convert_value((16, 2), "-0x"), Ok("-0".to_string()));
    assert_eq!(convert_value((16, 10), "0XFF"), Err(ConvertError::InvalidDigit('X')));
}

#[test]
fn decimal_source_is_read_without_prefix() {
    assert_eq!(convert_value((10, 16), "0x10"), Err(ConvertError::InvalidDigit('x')));
    assert_eq!(parse_digits("0042", 10), Ok(42));
}

#[test]
fn uppercase_digits_are_read() {
    assert_eq!(base_to_dec("FFFF", 16), Ok(65535));
    assert_eq!(convert_value((16, 16), "AbC"), Ok("abc".to_string()));
}

#[test]
fn decoder_rejects_digits_outside_the_base() {
    assert_eq!(base_to_dec("12g4", 16), Err(ConvertError::InvalidDigit('g')));
    assert_eq!(base_to_dec("102", 2), Err(ConvertError::InvalidDigit('2')));
    assert_eq!(base_to_dec("", 16), Err(ConvertError::EmptyValue));
    assert_eq!(convert_value((10, 16), "-"), Err(ConvertError::EmptyValue));
    assert_eq!(convert_value((10, 16), "--5"), Err(ConvertError::InvalidDigit('-')));
}

#[test]
fn decoder_reports_overflow() {
    let max = usize::MAX.to_string();
    assert_eq!(parse_digits(&max, 10), Ok(usize::MAX));
    let over = format!("{}0", max);
    assert_eq!(parse_digits(&over, 10), Err(ConvertError::Overflow));
    let ones = "1".repeat(usize::BITS as usize + 1);
    assert_eq!(base_to_dec(&ones, 2), Err(ConvertError::Overflow));
    assert_eq!(convert_value((2, 10), &ones), Err(ConvertError::Overflow));
}

#[test]
fn check_args_requires_three_arguments() {
    assert_eq!(check_args(&args(&["10", "16"])), Err(ConvertError::Usage));
    assert_eq!(check_args(&args(&["10", "16", "1", "2"])), Err(ConvertError::Usage));
    assert_eq!(check_args(&args(&[])), Err(ConvertError::Usage));
}

#[test]
fn check_args_rejects_bases_out_of_range() {
    assert_eq!(
        check_args(&args(&["1", "16", "0"])),
        Err(ConvertError::InvalidBase("1".to_string()))
    );
    assert_eq!(
        check_args(&args(&["10", "37", "0"])),
        Err(ConvertError::InvalidBase("37".to_string()))
    );
    assert_eq!(
        check_args(&args(&["ten", "16", "0"])),
        Err(ConvertError::InvalidBase("ten".to_string()))
    );
    assert_eq!(
        check_args(&args(&["", "16", "0"])),
        Err(ConvertError::InvalidBase("".to_string()))
    );
    assert_eq!(check_args(&args(&["+10", "16", "0"])), Ok((10, 16)));
    assert_eq!(check_args(&args(&["16", "+36", "0"])), Ok((16, 36)));
    assert_eq!(
        check_args(&args(&["+", "16", "0"])),
        Err(ConvertError::InvalidBase("+".to_string()))
    );
    assert_eq!(
        check_args(&args(&["++10", "16", "0"])),
        Err(ConvertError::InvalidBase("++10".to_string()))
    );
    assert_eq!(
        check_args(&args(&["-5", "16", "0"])),
        Err(ConvertError::InvalidBase("-5".to_string()))
    );
    assert_eq!(check_args(&args(&["2", "36", "1"])), Ok((2, 36)));
}

#[test]
fn check_args_rejects_digits_of_another_base() {
    assert_eq!(
        check_args(&args(&["16", "10", "12g"])),
        Err(ConvertError::InvalidDigit('g'))
    );
    assert_eq!(
        check_args(&args(&["16", "10", "12G"])),
        Err(ConvertError::InvalidDigit('G'))
    );
    assert_eq!(check_args(&args(&["36", "10", "z"])), Ok((36, 10)));
    assert_eq!(
        check_args(&args(&["36", "10", "a!"])),
        Err(ConvertError::InvalidDigit('!'))
    );
    assert_eq!(check_args(&args(&["16", "10", "-0xff"])), Ok((16, 10)));
    assert_eq!(check_args(&args(&["10", "16", "-10"])), Ok((10, 16)));
    assert_eq!(check_args(&args(&["16", "10", "0x"])), Ok((16, 10)));
    assert_eq!(check_args(&args(&["16", "10", ""])), Ok((16, 10)));
    assert_eq!(check_args(&args(&["16", "10", "-"])), Ok((16, 10)));
    assert_eq!(convert_value((16, 10), ""), Err(ConvertError::EmptyValue));
    assert_eq!(
        check_args(&args(&["36", "10", "z!"])),
        Err(ConvertError::InvalidDigit('!'))
    );
    assert_eq!(
        check_args(&args(&["36", "10", "Z.5"])),
        Err(ConvertError::InvalidDigit('.'))
    );
    assert_eq!(check_args(&args(&["36", "10", "0aZz9"])), Ok((36, 10)));
    assert_eq!(
        check_args(&args(&["10", "16", "0x10"])),
        Err(ConvertError::InvalidDigit('x'))
    );
}
