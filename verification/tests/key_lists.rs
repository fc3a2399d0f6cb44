use rtc::keys::ColourKey;
use rtc::select::{key_in, key_takes_part, parse_color_keys_input, unwrap_list};
use rtc::text::{chars_of, string_of};

fn names(keys: &[ColourKey]) -> Vec<&'static str> {
    keys.iter().map(|k| k.name()).collect()
}

fn parse(s: &str) -> rtc::select::KeyList {
    parse_color_keys_input(&Some(s.to_string()))
}

#[test]
fn alias_list_in_brackets_resolves_to_full_names() {
    let list = parse("(fg, c0)");
    assert_eq!(names(&list.keys), vec!["foreground", "color0"]);
    assert!(list.unknown.is_empty());
}

#[test]
fn no_list_names_no_keys() {
    let list = parse_color_keys_input(&None);
    assert!(list.keys.is_empty());
    assert!(list.unknown.is_empty());
    let list = parse("");
    assert!(list.keys.is_empty());
    assert!(list.unknown.is_empty());
}

#[test]
fn unknown_items_are_dropped_and_reported() {
    let list = parse("bg, nope ,color15,,C1, c1");
    assert_eq!(names(&list.keys), vec!["background", "color15", "color1"]);
    assert_eq!(list.unknown, vec!["nope", "C1"]);
}

#[test]
fn brackets_are_taken_off_only_at_the_very_ends() {
    assert_eq!(string_of(&unwrap_list(&chars_of("((fg,bg)))"))), "fg,bg");
    assert_eq!(string_of(&unwrap_list(&chars_of(")(fg)("))), ")(fg)(");
    assert_eq!(string_of(&unwrap_list(&chars_of("((("))), "");
    assert_eq!(string_of(&unwrap_list(&chars_of(")))"))), "");
    assert_eq!(string_of(&unwrap_list(&chars_of(""))), "");
    let list = parse(" (fg)");
    assert!(list.keys.is_empty());
    assert_eq!(list.unknown, vec!["(fg"]);
    let list = parse("(fg ) ");
    assert_eq!(list.unknown, vec!["fg )"]);
}

#[test]
fn keys_may_be_listed_twice() {
    let list = parse("fg,foreground,fg");
    assert_eq!(list.keys, vec![ColourKey::Foreground; 3]);
}

#[test]
fn forced_keys_take_part_alone() {
    let forced = vec![ColourKey::Color1, ColourKey::Cursor];
    let excepted = vec![ColourKey::Color1];
    for k in ColourKey::all() {
        assert_eq!(key_takes_part(k, &forced, &excepted), forced.contains(&k));
        assert_eq!(key_takes_part(k, &Vec::new(), &excepted), !excepted.contains(&k));
        assert!(key_takes_part(k, &Vec::new(), &Vec::new()));
        assert_eq!(key_in(&forced, k), forced.contains(&k));
    }
}

#[test]
fn forcing_keys_is_excepting_all_others() {
    let forced = vec![ColourKey::Foreground, ColourKey::Color10];
    let others: Vec<ColourKey> = ColourKey::all().into_iter().filter(|k| !forced.contains(k)).collect();
    assert_eq!(others.len(), 17);
    for k in ColourKey::all() {
        assert_eq!(key_takes_part(k, &forced, &Vec::new()), key_takes_part(k, &Vec::new(), &others));
    }
}

#[test]
fn forcing_no_key_is_not_excepting_all_keys() {
    let all = ColourKey::all();
    assert!(key_takes_part(ColourKey::Cursor, &Vec::new(), &Vec::new()));
    assert!(!key_takes_part(ColourKey::Cursor, &Vec::new(), &all));
}
