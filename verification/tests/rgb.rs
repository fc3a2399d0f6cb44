use rtc::util::{digit_value, hex_to_rgb, inverted_hex_to_rgb, pair_value};
use rtc::value::{is_colour_value_chars, is_hex_digit_char, lower_hex_digit_char, ColourValue};

#[test]
fn hex_to_rgb_reads_three_parts() {
    assert_eq!(hex_to_rgb("1a1b26"), Ok((0x1a, 0x1b, 0x26)));
    assert_eq!(hex_to_rgb("000000"), Ok((0, 0, 0)));
    assert_eq!(hex_to_rgb("FFffFf"), Ok((255, 255, 255)));
    assert_eq!(hex_to_rgb("c0CAf5"), Ok((192, 202, 245)));
}

#[test]
fn hex_to_rgb_wants_six_bytes() {
    for s in ["", "12345", "1234567", "#123456", "\u{e9}12345"] {
        assert_eq!(hex_to_rgb(s), Err("Invalid hex format. Use RRGGBB.".to_string()), "{:?}", s);
        assert_eq!(inverted_hex_to_rgb(s), Err("Invalid hex format. Use RRGGBB.".to_string()));
    }
}

#[test]
fn hex_to_rgb_names_the_first_bad_part() {
    assert_eq!(hex_to_rgb("g00000"), Err("Invalid red component".to_string()));
    assert_eq!(hex_to_rgb("0g0g0g"), Err("Invalid red component".to_string()));
    assert_eq!(hex_to_rgb("00 000"), Err("Invalid green component".to_string()));
    assert_eq!(hex_to_rgb("00zz-1"), Err("Invalid green component".to_string()));
    assert_eq!(hex_to_rgb("0000-1"), Err("Invalid blue component".to_string()));
    assert_eq!(hex_to_rgb("00000+"), Err("Invalid blue component".to_string()));
    assert_eq!(hex_to_rgb("\u{e9}1234"), Err("Invalid red component".to_string()));
    assert_eq!(hex_to_rgb("12\u{e9}34"), Err("Invalid green component".to_string()));
    assert_eq!(hex_to_rgb("1\u{e9}234"), Err("Invalid red component".to_string()));
}

#[test]
fn hex_to_rgb_takes_a_plus_before_one_digit() {
    assert_eq!(hex_to_rgb("+f+0+A"), Ok((15, 0, 10)));
    assert_eq!(hex_to_rgb("++0000"), Err("Invalid red component".to_string()));
}

#[test]
fn two_bytes_read_as_std_reads_them() {
    for hi in 0u8..128 {
        for lo in 0u8..128 {
            let s = String::from_utf8(vec![hi, lo]).unwrap();
            assert_eq!(pair_value(hi, lo), u8::from_str_radix(&s, 16).ok(), "{:?}", s);
        }
    }
    assert_eq!(pair_value(0xc3, 0xa9), None);
    assert_eq!(pair_value(b'f', 0x80), None);
}

#[test]
fn digits_read_as_std_reads_them() {
    for b in 0u8..=255 {
        let want = (b as char).to_digit(16).filter(|_| b < 128).map(|d| d as u8);
        assert_eq!(digit_value(b), want);
    }
}

#[test]
fn inverted_parts_are_taken_from_255() {
    assert_eq!(inverted_hex_to_rgb("000000"), Ok((255, 255, 255)));
    assert_eq!(inverted_hex_to_rgb("ffffff"), Ok((0, 0, 0)));
    assert_eq!(inverted_hex_to_rgb("1a1b26"), Ok((229, 228, 217)));
    assert_eq!(inverted_hex_to_rgb("1a1bxx"), Err("Invalid blue component".to_string()));
    assert_eq!(inverted_hex_to_rgb("xx1b26"), Err("Invalid red component".to_string()));
}

#[test]
fn colour_values_are_six_hex_digits() {
    for s in ["000000", "abcdef", "ABCDEF", "09afAF"] {
        assert_eq!(ColourValue::parse(s).unwrap().hex(), s);
        assert_eq!(ColourValue::parse(s).unwrap().chars(), s.chars().collect::<Vec<char>>());
    }
    for s in ["", "00000", "0000000", "00000g", " 00000", "#00000", "\u{ff10}00000", "0000\u{e9}"] {
        assert_eq!(ColourValue::parse(s), None, "{:?}", s);
        assert!(!is_colour_value_chars(&s.chars().collect()));
    }
    assert_eq!(ColourValue::black().hex(), "000000");
    assert!(ColourValue::parse("abcdef").unwrap().same_as(&ColourValue::parse("abcdef").unwrap()));
    assert!(!ColourValue::parse("abcdef").unwrap().same_as(&ColourValue::parse("ABCDEF").unwrap()));
}

#[test]
fn colour_from_bytes_is_what_format_gives() {
    for (r, g, b) in [(0u8, 0u8, 0u8), (255, 255, 255), (1, 16, 171), (0x1a, 0x1b, 0x26), (9, 10, 15), (160, 175, 250)] {
        assert_eq!(ColourValue::from_rgb(r, g, b).hex(), format!("{:02x}{:02x}{:02x}", r, g, b));
    }
    for n in 0u8..16 {
        assert_eq!(lower_hex_digit_char(n), char::from_digit(n as u32, 16).unwrap());
    }
    assert_eq!(lower_hex_digit_char(16), 'f');
    assert_eq!(lower_hex_digit_char(255), 'f');
    let mut c = 0u32;
    while c < 0x3000 {
        let ch = char::from_u32(c).unwrap();
        assert_eq!(is_hex_digit_char(ch), ch.is_ascii_hexdigit());
        c += 1;
    }
}
