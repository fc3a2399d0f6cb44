use rtc::text::{
    chars_of, find, is_whitespace_char, same_chars, skip_whitespace, split_lines, split_list,
    split_on, string_of, trim, trim_end_before,
};

fn strings(parts: Vec<Vec<char>>) -> Vec<String> {
    parts.iter().map(|p| string_of(p)).collect()
}

const SAMPLES: [&str; 14] = [
    "",
    "\n",
    "\r",
    "\r\n",
    "a",
    "a\n",
    "a\r",
    "a\r\n",
    "a\r\r\n",
    "a\n\nb",
    "foo\nbar\n\r\nbaz\r",
    "\n\n\n",
    "x\ry\nz",
    "caf\u{e9} \u{3000}#\u{1F600}\r\n \u{a0}end",
];

#[test]
fn whitespace_is_what_std_calls_whitespace() {
    let mut c = 0u32;
    while c <= 0x10ffff {
        if let Some(ch) = char::from_u32(c) {
            assert_eq!(is_whitespace_char(ch), ch.is_whitespace(), "U+{:04X}", c);
        }
        c += 1;
    }
}

#[test]
fn lines_are_the_lines_of_std() {
    for s in SAMPLES {
        let want: Vec<String> = s.lines().map(|l| l.to_string()).collect();
        assert_eq!(strings(split_lines(&chars_of(s))), want, "{:?}", s);
    }
}

#[test]
fn lines_keep_a_carriage_return_at_the_very_end() {
    assert_eq!(strings(split_lines(&chars_of("foo\nbar\n\r\nbaz\r"))), vec!["foo", "bar", "", "baz\r"]);
}

#[test]
fn pieces_are_the_pieces_of_std() {
    for s in ["", ",", "a", "a,b", ",a,,b,", " fg , c0 ", ",,,"] {
        let want: Vec<String> = s.split(',').map(|l| l.to_string()).collect();
        assert_eq!(strings(split_on(&chars_of(s), ',')), want, "{:?}", s);
    }
}

#[test]
fn trimming_is_the_trimming_of_std() {
    for s in ["", " ", "a", "  a b \t", "\u{a0}x\u{3000}", "\r\n", "\u{2003}\u{85}y z\u{1680}", "no"] {
        assert_eq!(string_of(&trim(&chars_of(s))), s.trim(), "{:?}", s);
        let v = chars_of(s);
        let end = trim_end_before(&v, v.len());
        assert_eq!(v[..end].iter().collect::<String>(), s.trim_end(), "{:?}", s);
        let start = skip_whitespace(&v, 0);
        assert_eq!(v[start..].iter().collect::<String>(), s.trim_start(), "{:?}", s);
    }
}

#[test]
fn list_items_are_trimmed_and_not_empty() {
    assert_eq!(strings(split_list(&chars_of(" fg , ,c0,,  color7 \t,"))), vec!["fg", "c0", "color7"]);
    assert_eq!(split_list(&chars_of("")).len(), 0);
    assert_eq!(split_list(&chars_of(" , ,")).len(), 0);
}

#[test]
fn chars_and_strings_convert_both_ways() {
    for s in SAMPLES {
        let v = chars_of(s);
        assert_eq!(v, s.chars().collect::<Vec<char>>());
        assert_eq!(string_of(&v), s);
        assert!(same_chars(&v, s));
    }
    assert!(!same_chars(&chars_of("abc"), "abd"));
    assert!(!same_chars(&chars_of("abc"), "ab"));
}

#[test]
fn find_gives_the_first_index_or_the_length() {
    let v = chars_of("a#b#c");
    assert_eq!(find(&v, '#', 0), 1);
    assert_eq!(find(&v, '#', 1), 1);
    assert_eq!(find(&v, '#', 2), 3);
    assert_eq!(find(&v, '#', 4), 5);
    assert_eq!(find(&v, 'z', 0), 5);
    assert_eq!(find(&v, 'a', 5), 5);
    assert_eq!(find(&v, 'a', 9), 9);
}

#[test]
fn skipping_and_trimming_behind_the_end_stay_where_they_are() {
    let v = chars_of(" a ");
    assert_eq!(skip_whitespace(&v, 0), 1);
    assert_eq!(skip_whitespace(&v, 2), 3);
    assert_eq!(skip_whitespace(&v, 7), 7);
    assert_eq!(trim_end_before(&v, 3), 2);
    assert_eq!(trim_end_before(&v, 1), 0);
    assert_eq!(trim_end_before(&v, 0), 0);
    assert_eq!(trim_end_before(&v, 7), 7);
}
