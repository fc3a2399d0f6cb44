use rtc::backup::{
    create_colours_backup, load_colours_from_backup, print_current_colours_to_terminal,
    read_backup_line, read_colours_backup,
};
use rtc::colours::extract_current_colours;
use rtc::config::get_colours_backup_path;
use rtc::keys::ColourKey;
use rtc::text::chars_of;
use rtc::value::ColourValue;

fn hex(s: &str) -> ColourValue {
    ColourValue::parse(s).unwrap()
}

const CONFIG: &str = "foreground #c0caf5\nbackground   #1A1B26\ncolor10 #101010\nshell zsh\n";

const BACKUP: &str = "foreground#c0caf5\nbackground#1A1B26\ncursor#000000\ncolor0#000000\ncolor1#000000\ncolor2#000000\ncolor3#000000\ncolor4#000000\ncolor5#000000\ncolor6#000000\ncolor7#000000\ncolor8#000000\ncolor9#000000\ncolor10#101010\ncolor11#000000\ncolor12#000000\ncolor13#000000\ncolor14#000000\ncolor15#000000\n";

#[test]
fn backup_has_a_line_for_each_key_in_order() {
    let report = create_colours_backup(CONFIG);
    assert_eq!(report.content, BACKUP);
    assert_eq!(report.content.lines().count(), 19);
    assert_eq!(report.missing_keys.len(), 16);
    assert_eq!(report.missing_keys[0], ColourKey::Cursor);
    assert!(!report.missing_keys.contains(&ColourKey::Color10));
}

#[test]
fn backup_of_empty_text_is_all_black() {
    let report = create_colours_backup("");
    assert_eq!(report.missing_keys, ColourKey::all());
    for (line, k) in report.content.lines().zip(ColourKey::all()) {
        assert_eq!(line, format!("{}#000000", k.name()));
    }
}

#[test]
fn backup_read_back_is_the_palette_filled_with_black() {
    let saved = read_colours_backup(&create_colours_backup(CONFIG).content);
    let current = extract_current_colours(CONFIG);
    assert_eq!(saved.len(), 19);
    for k in ColourKey::all() {
        assert_eq!(saved.get(k), Some(current.get_or_black(k)));
    }
}

#[test]
fn backup_lines_are_cut_at_the_first_hash_and_trimmed() {
    let p = read_colours_backup("  cursor  #  aabbcc \r\ncolor1#112233#x\nfg#445566\n#778899\ncolor2 778899\ncolor3#12345\nColor4#123456\ncolor5#abcdef");
    assert_eq!(p.keys(), vec![ColourKey::Cursor, ColourKey::Color5]);
    assert_eq!(p.get(ColourKey::Cursor), Some(hex("aabbcc")));
    assert_eq!(p.get(ColourKey::Color5), Some(hex("abcdef")));
    assert_eq!(read_backup_line(&chars_of("color9#999999")), Some((ColourKey::Color9, hex("999999"))));
    assert_eq!(read_backup_line(&chars_of("c9#999999")), None);
    assert_eq!(read_backup_line(&chars_of("color9")), None);
    assert_eq!(read_backup_line(&chars_of("")), None);
}

#[test]
fn backup_gives_a_key_its_last_line() {
    let p = read_colours_backup("cursor#111111\ncursor#222222\ncursor#bad\n");
    assert_eq!(p.get(ColourKey::Cursor), Some(hex("222222")));
}

#[test]
fn loading_writes_the_saved_colours_into_the_text() {
    let text = "# mine\nforeground #111111\ncursor    #222222\ncolor10 #333333 # x\nshell zsh";
    let out = load_colours_from_backup(text, BACKUP);
    assert_eq!(out, "# mine\nforeground #c0caf5\ncursor #000000\ncolor10 #101010\nshell zsh\n");
}

#[test]
fn loading_an_empty_backup_keeps_every_line() {
    assert_eq!(load_colours_from_backup(CONFIG, ""), CONFIG);
    assert_eq!(load_colours_from_backup(CONFIG, "nonsense\n#\ncolor1#xyz\n"), CONFIG);
}

#[test]
fn backup_file_has_the_name_or_default() {
    assert_eq!(get_colours_backup_path(&None), "default.rtc_colours");
    assert_eq!(get_colours_backup_path(&Some("my_theme".to_string())), "my_theme.rtc_colours");
    assert_eq!(get_colours_backup_path(&Some(String::new())), ".rtc_colours");
    assert_eq!(get_colours_backup_path(&Some("a b/\u{e9}".to_string())), "a b/\u{e9}.rtc_colours");
}

#[test]
fn listing_shows_each_key_or_that_it_is_missing() {
    let listing = print_current_colours_to_terminal(CONFIG);
    let lines: Vec<&str> = listing.split('\n').collect();
    assert_eq!(lines.len(), 23);
    assert_eq!(lines[0], "");
    assert_eq!(lines[1], "--- Current Kitty Colours ---");
    assert_eq!(lines[2], "foreground: #c0caf5");
    assert_eq!(lines[3], "background: #1A1B26");
    assert_eq!(lines[4], "cursor: (Not found in config, defaulting to #000000)");
    assert_eq!(lines[15], "color10: #101010");
    assert_eq!(lines[20], "color15: (Not found in config, defaulting to #000000)");
    assert_eq!(lines[21], "-----------------------------");
    assert_eq!(lines[22], "");
}
