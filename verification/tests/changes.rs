use rtc::change::{
    apply_random_colours_to_kitty, assign_shuffled, named_colours, set_colours,
    shuffle_current_colours, SetColourError,
};
use rtc::colours::{extract_current_colours, update_kitty_config_with_colours};
use rtc::keys::ColourKey;
use rtc::palette::PaletteMap;
use rtc::util::generate_random_colour_hex;
use rtc::value::ColourValue;

fn hex(s: &str) -> ColourValue {
    ColourValue::parse(s).unwrap()
}

fn some(s: &str) -> Option<String> {
    Some(s.to_string())
}

const CONFIG: &str = "# colours\nforeground #f0f0f0\nbackground #0b0b0b\ncolor0 #000000\ncolor1 #111111\ncolor2 #222222\ncolor3 #333333\nfont_size 12\n";

fn sorted(mut v: Vec<String>) -> Vec<String> {
    v.sort();
    v
}

#[test]
fn shuffle_keeps_the_colours_of_the_eligible_keys() {
    for _ in 0..20 {
        let report = shuffle_current_colours(CONFIG, &None, &None);
        let update = report.update.unwrap();
        let before = extract_current_colours(CONFIG);
        let eligible = before.keys();
        assert_eq!(eligible.len(), 6);
        let old: Vec<String> = eligible.iter().map(|k| before.get(*k).unwrap().hex()).collect();
        let new: Vec<String> = eligible.iter().map(|k| update.colours.get(*k).unwrap().hex()).collect();
        assert_eq!(sorted(old), sorted(new));
        assert_eq!(update.colours.len(), 19);
        assert_eq!(update.colours.get(ColourKey::Cursor), Some(hex("000000")));
        assert_eq!(update.content, update_kitty_config_with_colours(CONFIG, &update.colours));
        assert_eq!(extract_current_colours(&update.content), {
            let mut p = PaletteMap::new();
            for k in eligible.iter() {
                p.insert(*k, update.colours.get(*k).unwrap());
            }
            p
        });
        assert_eq!(report.missing_keys.len(), 13);
        assert_eq!(report.missing_keys[0], ColourKey::Cursor);
        assert!(report.unknown_keys.is_empty());
    }
}

#[test]
fn shuffle_moves_colours_at_some_time() {
    let mut moved = false;
    for _ in 0..200 {
        let update = shuffle_current_colours(CONFIG, &None, &None).update.unwrap();
        if update.content != CONFIG {
            moved = true;
        }
    }
    assert!(moved);
}

#[test]
fn shuffle_leaves_excepted_keys_alone() {
    for _ in 0..20 {
        let report = shuffle_current_colours(CONFIG, &some("(fg, bg, what)"), &None);
        let update = report.update.unwrap();
        assert_eq!(update.colours.get(ColourKey::Foreground), Some(hex("f0f0f0")));
        assert_eq!(update.colours.get(ColourKey::Background), Some(hex("0b0b0b")));
        assert!(update.content.starts_with("# colours\nforeground #f0f0f0\nbackground #0b0b0b\n"));
        assert!(update.content.ends_with("font_size 12\n"));
        assert_eq!(report.unknown_keys, vec!["what"]);
    }
}

#[test]
fn shuffle_of_forced_keys_ignores_the_excepted() {
    for _ in 0..20 {
        let report = shuffle_current_colours(CONFIG, &some("c0"), &some("c0,c1,zz"));
        let update = report.update.unwrap();
        let mut got = vec![
            update.colours.get(ColourKey::Color0).unwrap().hex(),
            update.colours.get(ColourKey::Color1).unwrap().hex(),
        ];
        got.sort();
        assert_eq!(got, vec!["000000", "111111"]);
        assert_eq!(update.colours.get(ColourKey::Color2), Some(hex("222222")));
        assert_eq!(update.colours.get(ColourKey::Foreground), Some(hex("f0f0f0")));
        assert_eq!(report.unknown_keys, vec!["zz"]);
    }
}

#[test]
fn shuffle_needs_two_eligible_colours() {
    let report = shuffle_current_colours(CONFIG, &None, &some("fg"));
    assert_eq!(report.update, None);
    let report = shuffle_current_colours(CONFIG, &None, &some("cs,c9"));
    assert_eq!(report.update, None);
    assert_eq!(report.missing_keys.len(), 13);
    let report = shuffle_current_colours("", &None, &None);
    assert_eq!(report.update, None);
    assert_eq!(report.missing_keys.len(), 19);
    let report = shuffle_current_colours("cursor #123456\n", &None, &None);
    assert_eq!(report.update, None);
}

#[test]
fn shuffle_treats_selected_keys_without_colour_as_fixed() {
    let text = "color4 #444444\ncolor5 #bad\ncolor6 #666666\n";
    for _ in 0..20 {
        let update = shuffle_current_colours(text, &None, &some("c4,c5,c6")).update.unwrap();
        assert_eq!(update.colours.get(ColourKey::Color5), Some(hex("000000")));
        let mut got = vec![
            update.colours.get(ColourKey::Color4).unwrap().hex(),
            update.colours.get(ColourKey::Color6).unwrap().hex(),
        ];
        got.sort();
        assert_eq!(got, vec!["444444", "666666"]);
        assert!(update.content.contains("color5 #000000\n"));
    }
}

#[test]
fn assigned_values_go_to_eligible_keys_in_key_order() {
    let current = extract_current_colours(CONFIG);
    let values = vec![hex("aaaaaa"), hex("bbbbbb"), hex("cccccc")];
    let forced = vec![ColourKey::Color2, ColourKey::Foreground, ColourKey::Color0, ColourKey::Color9];
    let p = assign_shuffled(&current, &forced, &Vec::new(), &values);
    assert_eq!(p.len(), 19);
    assert_eq!(p.get(ColourKey::Foreground), Some(hex("aaaaaa")));
    assert_eq!(p.get(ColourKey::Color0), Some(hex("bbbbbb")));
    assert_eq!(p.get(ColourKey::Color2), Some(hex("cccccc")));
    assert_eq!(p.get(ColourKey::Color9), Some(hex("000000")));
    assert_eq!(p.get(ColourKey::Background), Some(hex("0b0b0b")));
    assert_eq!(p.get(ColourKey::Color1), Some(hex("111111")));
    assert_eq!(p.get(ColourKey::Cursor), Some(hex("000000")));
}

#[test]
fn assigned_values_that_run_out_are_black() {
    let current = extract_current_colours(CONFIG);
    let p = assign_shuffled(&current, &Vec::new(), &Vec::new(), &vec![hex("aaaaaa")]);
    assert_eq!(p.get(ColourKey::Foreground), Some(hex("aaaaaa")));
    assert_eq!(p.get(ColourKey::Background), Some(hex("000000")));
    assert_eq!(p.get(ColourKey::Color3), Some(hex("000000")));
}

#[test]
fn random_colours_are_six_lower_case_hex_digits() {
    let mut seen = std::collections::HashSet::new();
    for _ in 0..200 {
        let s = generate_random_colour_hex().hex();
        assert_eq!(s.len(), 6);
        assert!(s.chars().all(|c| c.is_ascii_digit() || ('a'..='f').contains(&c)));
        seen.insert(s);
    }
    assert!(seen.len() > 100);
}

#[test]
fn random_colours_go_to_every_key_by_default() {
    let report = apply_random_colours_to_kitty(CONFIG, &None, &None);
    assert_eq!(report.colours.len(), 19);
    assert!(report.missing_keys.is_empty());
    assert!(report.unknown_keys.is_empty());
    assert_eq!(report.content, update_kitty_config_with_colours(CONFIG, &report.colours));
    assert_eq!(report.content.lines().count(), CONFIG.lines().count());
    for k in ColourKey::all() {
        let s = report.colours.get(k).unwrap().hex();
        assert!(s.chars().all(|c| c.is_ascii_digit() || ('a'..='f').contains(&c)));
    }
}

#[test]
fn random_colours_leave_excepted_keys_alone() {
    let report = apply_random_colours_to_kitty(CONFIG, &some("(bg, cs, huh)"), &None);
    assert_eq!(report.colours.get(ColourKey::Background), Some(hex("0b0b0b")));
    assert_eq!(report.colours.get(ColourKey::Cursor), Some(hex("000000")));
    assert_eq!(report.missing_keys, vec![ColourKey::Cursor]);
    assert_eq!(report.unknown_keys, vec!["huh"]);
    assert!(report.content.contains("\nbackground #0b0b0b\n"));
}

#[test]
fn random_colours_go_to_forced_keys_alone() {
    let mut changed = false;
    for _ in 0..5 {
        let report = apply_random_colours_to_kitty(CONFIG, &some("bg"), &some("x1,bg,y2"));
        assert_eq!(report.unknown_keys, vec!["x1", "y2"]);
        assert_eq!(report.colours.get(ColourKey::Foreground), Some(hex("f0f0f0")));
        assert_eq!(report.colours.get(ColourKey::Color3), Some(hex("333333")));
        assert_eq!(report.missing_keys.len(), 13);
        let bg = report.colours.get(ColourKey::Background).unwrap().hex();
        let expect = CONFIG.replace("background #0b0b0b", &format!("background #{}", bg));
        assert_eq!(report.content, expect);
        if bg != "0b0b0b" {
            changed = true;
        }
    }
    assert!(changed);
}

#[test]
fn named_colours_are_set_together() {
    let update = set_colours(CONFIG, "bg, fg", "000000,FFFFFF").unwrap();
    assert_eq!(update.colours.len(), 2);
    assert_eq!(update.colours.get(ColourKey::Background), Some(hex("000000")));
    assert_eq!(update.colours.get(ColourKey::Foreground), Some(hex("FFFFFF")));
    assert_eq!(
        update.content,
        CONFIG.replace("foreground #f0f0f0", "foreground #FFFFFF").replace("background #0b0b0b", "background #000000")
    );
}

#[test]
fn named_colours_with_mismatched_counts_are_refused() {
    assert_eq!(
        set_colours(CONFIG, "bg,fg", "000000,111111,222222"),
        Err(SetColourError::CountMismatch { keys: 2, colours: 3 })
    );
    assert_eq!(
        named_colours("bg,fg,", ""),
        Err(SetColourError::CountMismatch { keys: 2, colours: 0 })
    );
    assert_eq!(
        named_colours("nokey", "bad,worse"),
        Err(SetColourError::CountMismatch { keys: 1, colours: 2 })
    );
}

#[test]
fn named_colours_with_a_bad_colour_are_refused() {
    assert_eq!(
        set_colours(CONFIG, "bg,fg", "000000,12345"),
        Err(SetColourError::InvalidColour("12345".to_string()))
    );
    assert_eq!(
        named_colours("nokey,fg", "00000g,zz"),
        Err(SetColourError::InvalidColour("00000g".to_string()))
    );
    assert_eq!(
        named_colours("fg", "#00000"),
        Err(SetColourError::InvalidColour("#00000".to_string()))
    );
    assert_eq!(
        named_colours("fg", "\u{e9}1234"),
        Err(SetColourError::InvalidColour("\u{e9}1234".to_string()))
    );
}

#[test]
fn named_colours_with_an_unknown_key_are_refused() {
    assert_eq!(
        set_colours(CONFIG, "bg,nokey", "000000,123456"),
        Err(SetColourError::UnknownKey("nokey".to_string()))
    );
    assert_eq!(
        named_colours("(bg,fg)", "000000,123456"),
        Err(SetColourError::UnknownKey("(bg".to_string()))
    );
    assert_eq!(
        named_colours("first,fg", "000000,xyz"),
        Err(SetColourError::UnknownKey("first".to_string()))
    );
}

#[test]
fn named_colours_take_the_last_colour_of_a_key() {
    let p = named_colours(" c1 ,color1, c2", "111111, 222222 ,333333").unwrap();
    assert_eq!(p.len(), 2);
    assert_eq!(p.get(ColourKey::Color1), Some(hex("222222")));
    assert_eq!(p.get(ColourKey::Color2), Some(hex("333333")));
}

#[test]
fn no_named_colours_change_nothing_but_line_ends() {
    let update = set_colours("a\r\nb", "", " , ").unwrap();
    assert!(update.colours.is_empty());
    assert_eq!(update.content, "a\nb\n");
}
