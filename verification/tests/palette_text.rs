use rtc::colours::{extract_current_colours, update_kitty_config_with_colours};
use rtc::keys::ColourKey;
use rtc::palette::PaletteMap;
use rtc::value::ColourValue;

fn hex(s: &str) -> ColourValue {
    ColourValue::parse(s).unwrap()
}

fn palette(pairs: &[(ColourKey, &str)]) -> PaletteMap {
    let mut p = PaletteMap::new();
    for (k, v) in pairs {
        p.insert(*k, hex(v));
    }
    p
}

#[test]
fn extraction_reads_both_keys_of_the_example() {
    let text = "background            #1a1b26\nforeground #c0caf5\n";
    let found = extract_current_colours(text);
    assert_eq!(found.len(), 2);
    assert_eq!(found.get(ColourKey::Background), Some(hex("1a1b26")));
    assert_eq!(found.get(ColourKey::Foreground), Some(hex("c0caf5")));
    assert_eq!(found.keys(), vec![ColourKey::Foreground, ColourKey::Background]);
}

#[test]
fn substitution_changes_only_the_hex_of_the_given_key() {
    let text = "background #1a1b26\nforeground #c0caf5\n";
    let out = update_kitty_config_with_colours(text, &palette(&[(ColourKey::Background, "000000")]));
    assert_eq!(out, "background #000000\nforeground #c0caf5\n");
}

#[test]
fn substitution_puts_one_space_between_key_and_hash() {
    let text = "background            #1a1b26\nforeground #c0caf5\n";
    let out = update_kitty_config_with_colours(text, &palette(&[(ColourKey::Background, "000000")]));
    assert_eq!(out, "background #000000\nforeground #c0caf5\n");
}

#[test]
fn substitution_keeps_indentation() {
    let text = "  \tcolor3\t#112233   # red\n";
    let out = update_kitty_config_with_colours(text, &palette(&[(ColourKey::Color3, "abcdef")]));
    assert_eq!(out, "  \tcolor3 #abcdef\n");
}

#[test]
fn extraction_skips_comments_blank_lines_and_other_settings() {
    let text = "# background #111111\n\n   \nfont_size 12\nbackground_opacity 0.9\ncursor #aabbcc\n";
    let found = extract_current_colours(text);
    assert_eq!(found.keys(), vec![ColourKey::Cursor]);
    assert_eq!(found.get(ColourKey::Cursor), Some(hex("aabbcc")));
}

#[test]
fn extraction_needs_only_whitespace_before_the_hash() {
    let found = extract_current_colours("foreground x #aabbcc\nbackground#112233\ncursor\u{a0}\u{3000}#445566\n");
    assert_eq!(found.get(ColourKey::Foreground), None);
    assert_eq!(found.get(ColourKey::Background), Some(hex("112233")));
    assert_eq!(found.get(ColourKey::Cursor), Some(hex("445566")));
}

#[test]
fn extraction_needs_exactly_six_hex_digits_after_the_hash() {
    let text = "color0 #12345\ncolor1 #1234567\ncolor2 #12345g\ncolor3 #  AbCdEf  \ncolor4 #aabbcc # note\ncolor5 ##aabbcc\n";
    let found = extract_current_colours(text);
    assert_eq!(found.keys(), vec![ColourKey::Color3]);
    assert_eq!(found.get(ColourKey::Color3).unwrap().hex(), "AbCdEf");
}

#[test]
fn extraction_tells_color1_from_color10() {
    let text = "color1 #111111\ncolor10 #101010\ncolor15 #151515\n";
    let found = extract_current_colours(text);
    assert_eq!(found.keys(), vec![ColourKey::Color1, ColourKey::Color10, ColourKey::Color15]);
    assert_eq!(found.get(ColourKey::Color1), Some(hex("111111")));
    assert_eq!(found.get(ColourKey::Color10), Some(hex("101010")));
    assert_eq!(found.get(ColourKey::Color15), Some(hex("151515")));
}

#[test]
fn extraction_takes_the_last_line_of_a_key() {
    let found = extract_current_colours("cursor #111111\ncursor #222222\ncursor #zzz\n");
    assert_eq!(found.get(ColourKey::Cursor), Some(hex("222222")));
}

#[test]
fn extraction_of_empty_text_is_empty() {
    let found = extract_current_colours("");
    assert!(found.is_empty());
    assert_eq!(found.len(), 0);
    assert_eq!(found.missing_keys().len(), 19);
}

#[test]
fn substitution_leaves_recognised_lines_of_absent_keys() {
    let text = "foreground #111111\nbackground   #222222\n";
    let out = update_kitty_config_with_colours(text, &palette(&[(ColourKey::Foreground, "333333")]));
    assert_eq!(out, "foreground #333333\nbackground   #222222\n");
}

#[test]
fn substitution_with_empty_palette_only_ends_lines() {
    let text = "a\r\nb\n\nforeground #111111";
    let out = update_kitty_config_with_colours(text, &PaletteMap::new());
    assert_eq!(out, "a\nb\n\nforeground #111111\n");
}

#[test]
fn substitution_rewrites_lines_with_a_bad_colour() {
    let text = "color2 #nothex and more\n";
    let out = update_kitty_config_with_colours(text, &palette(&[(ColourKey::Color2, "0a0b0c")]));
    assert_eq!(out, "color2 #0a0b0c\n");
}

#[test]
fn substitution_keeps_the_number_and_order_of_lines() {
    let text = "# theme\ncolor0 #000000\n\nfont_size 11\ncolor1 #111111\nlast line";
    let p = palette(&[(ColourKey::Color0, "ffffff"), (ColourKey::Color1, "eeeeee")]);
    let out = update_kitty_config_with_colours(text, &p);
    assert_eq!(out, "# theme\ncolor0 #ffffff\n\nfont_size 11\ncolor1 #eeeeee\nlast line\n");
    assert_eq!(out.lines().count(), text.lines().count());
}

#[test]
fn round_trip_gives_the_palette_back() {
    let text = "foreground #111111\n# c\nbackground #222222\ncolor7 #777777\n";
    let p = palette(&[
        (ColourKey::Foreground, "aAbBcC"),
        (ColourKey::Background, "010203"),
        (ColourKey::Color7, "fedcba"),
    ]);
    let out = update_kitty_config_with_colours(text, &p);
    assert_eq!(extract_current_colours(&out), p);
}

#[test]
fn round_trip_misses_keys_without_a_line() {
    let text = "foreground #111111\n";
    let p = palette(&[(ColourKey::Foreground, "aaaaaa"), (ColourKey::Cursor, "bbbbbb")]);
    let out = update_kitty_config_with_colours(text, &p);
    let back = extract_current_colours(&out);
    assert_eq!(back.get(ColourKey::Foreground), Some(hex("aaaaaa")));
    assert_eq!(back.get(ColourKey::Cursor), None);
}

#[test]
fn round_trip_keeps_colours_of_other_keys() {
    let text = "foreground #111111\ncolor9 #999999\r\n";
    let p = palette(&[(ColourKey::Foreground, "aaaaaa")]);
    let back = extract_current_colours(&update_kitty_config_with_colours(text, &p));
    assert_eq!(back.get(ColourKey::Color9), Some(hex("999999")));
    assert_eq!(back.len(), 2);
}

#[test]
fn substitution_twice_is_substitution_once() {
    let text = "  foreground\t\t#111111 trailing\nother\r\ncolor12 #121212\n\nbackground #bad\n";
    let p = palette(&[
        (ColourKey::Foreground, "aaaaaa"),
        (ColourKey::Background, "bbbbbb"),
        (ColourKey::Color12, "cccccc"),
    ]);
    let once = update_kitty_config_with_colours(text, &p);
    let twice = update_kitty_config_with_colours(&once, &p);
    assert_eq!(once, twice);
    assert_eq!(once, "  foreground #aaaaaa\nother\ncolor12 #cccccc\n\nbackground #bbbbbb\n");
}

#[test]
fn substitution_twice_differs_for_a_kept_line_ending_in_carriage_return() {
    let once = update_kitty_config_with_colours("a\r", &PaletteMap::new());
    let twice = update_kitty_config_with_colours(&once, &PaletteMap::new());
    assert_eq!(once, "a\r\n");
    assert_eq!(twice, "a\n");
}

#[test]
fn palette_insert_get_and_keys() {
    let mut p = PaletteMap::new();
    assert!(p.is_empty());
    p.insert(ColourKey::Color15, hex("151515"));
    p.insert(ColourKey::Foreground, hex("f0f0f0"));
    p.insert(ColourKey::Color15, hex("ffffff"));
    assert_eq!(p.len(), 2);
    assert!(p.contains_key(ColourKey::Foreground));
    assert!(!p.contains_key(ColourKey::Background));
    assert_eq!(p.get(ColourKey::Color15), Some(hex("ffffff")));
    assert_eq!(p.get_or_black(ColourKey::Cursor).hex(), "000000");
    assert_eq!(p.get_or_black(ColourKey::Foreground).hex(), "f0f0f0");
    assert_eq!(p.keys(), vec![ColourKey::Foreground, ColourKey::Color15]);
    assert_eq!(p.missing_keys().len(), 17);
    assert_eq!(p.missing_keys()[0], ColourKey::Background);
}
