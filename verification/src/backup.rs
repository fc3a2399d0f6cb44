//! The palette outside the configuration text: a backup of it, a backup read
//! back, and a listing of it.

use crate::colours::{extract_current_colours, extracted, substituted, update_kitty_config_with_colours};
use crate::keys::{key_at, key_name, key_named, key_of_index, key_with_name, ColourKey, KEY_COUNT};
use crate::palette::{
    is_palette, lemma_palette_of_push, missing_keys_of, palette_of, value_or_black, PaletteMap,
};
use crate::text::{
    append, chars_of, find, find_char, join_lines, lines, split_lines, string_of, subvec, trim,
    trimmed, views,
};
use crate::value::{is_colour_value, ColourValue};
use vstd::prelude::*;

verus! {

/// The line of a backup for the key `k`: its name, `#`, and its colour in
/// `m`, or `000000` where `m` gives it none.
pub open spec fn backup_line(m: Map<ColourKey, Seq<char>>, k: ColourKey) -> Seq<char> {
    key_name(k) + seq!['#'] + value_or_black(m, k)
}

/// The nineteen lines of a backup of `m`, in the fixed order of the keys.
pub open spec fn backup_lines(m: Map<ColourKey, Seq<char>>) -> Seq<Seq<char>> {
    Seq::new(19, |i: int| backup_line(m, key_at(i)))
}

/// The text of a backup of `m`.
pub open spec fn backup_text(m: Map<ColourKey, Seq<char>>) -> Seq<char> {
    join_lines(backup_lines(m))
}

/// The key and the colour of one line of a backup: the line is cut at its
/// first `#`; what stands before it is, once trimmed, the name of a key, and
/// what stands behind it is, once trimmed, six hexadecimal digits.
pub open spec fn backup_entry(line: Seq<char>) -> Option<(ColourKey, Seq<char>)> {
    let hash = find_char(line, '#', 0);
    let v = trimmed(line.skip(hash + 1));
    if hash < line.len() && is_colour_value(v) {
        match key_named(trimmed(line.take(hash))) {
            Some(k) => Some((k, v)),
            None => None,
        }
    } else {
        None
    }
}

/// What each line of a backup gives to a key.
pub open spec fn backup_entries(ls: Seq<Seq<char>>) -> Seq<Option<(ColourKey, Seq<char>)>> {
    ls.map_values(|l: Seq<char>| backup_entry(l))
}

/// The palette that the text of a backup holds: for each key the colour on
/// the last line that names it.
pub open spec fn restored(backup: Seq<char>) -> Map<ColourKey, Seq<char>> {
    palette_of(backup_entries(lines(backup)))
}

/// The line that shows the key `k` in a listing of `m`.
pub open spec fn listing_line(m: Map<ColourKey, Seq<char>>, k: ColourKey) -> Seq<char> {
    if m.dom().contains(k) {
        key_name(k) + ": #"@ + m[k]
    } else {
        key_name(k) + ": (Not found in config, defaulting to #000000)"@
    }
}

/// The lines of a listing of `m`: an empty line, a heading, a line for each
/// key in the fixed order, and a closing line.
pub open spec fn listing_lines(m: Map<ColourKey, Seq<char>>) -> Seq<Seq<char>> {
    seq![Seq::<char>::empty(), "--- Current Kitty Colours ---"@] + Seq::new(
        19,
        |i: int| listing_line(m, key_at(i)),
    ) + seq!["-----------------------------"@]
}

/// A backup of a palette, and the keys that had no colour to save.
#[derive(Clone, Debug, PartialEq, Eq)]
pub struct BackupReport {
    /// The text of the backup.
    pub content: String,
    /// The keys without a colour in the configuration text: the backup holds
    /// `000000` for them.
    pub missing_keys: Vec<ColourKey>,
}

/// The text of a backup of the palette of a configuration text: a line
/// `key#colour` for each of the nineteen keys, in their fixed order, with
/// `000000` for a key that the text gives no colour.
pub fn create_colours_backup(content: &str) -> (report: BackupReport)
    ensures
        report.content@ == backup_text(extracted(content@)),
        report.missing_keys@ == missing_keys_of(extracted(content@)),
{
    let current = extract_current_colours(content);
    let mut out: Vec<char> = Vec::new();
    let mut i: usize = 0;
    assert(backup_lines(current@).take(0) =~= Seq::<Seq<char>>::empty());
    while i < KEY_COUNT
        invariant
            i <= 19,
            out@ == join_lines(backup_lines(current@).take(i as int)),
        decreases 19 - i,
    {
        let k = key_of_index(i);
        let ghost all = backup_lines(current@);
        let ghost before = out@;
        assert(all.take(i + 1).drop_last() == all.take(i as int));
        assert(all.take(i + 1).last() == backup_line(current@, k));
        append(&mut out, &chars_of(k.name()));
        out.push('#');
        append(&mut out, &current.get_or_black(k).chars());
        out.push('\n');
        assert(out@ =~= before + backup_line(current@, k) + seq!['\n']);
        i += 1;
    }
    assert(backup_lines(current@).take(19) == backup_lines(current@));
    BackupReport { content: string_of(&out), missing_keys: current.missing_keys() }
}

/// The key and the colour of one line of a backup.
pub fn read_backup_line(line: &Vec<char>) -> (r: Option<(ColourKey, ColourValue)>)
    ensures
        match r {
            Some((k, v)) => backup_entry(line@) == Some((k, v@)),
            None => backup_entry(line@) is None,
        },
{
    let hash = find(line, '#', 0);
    if hash >= line.len() {
        return None;
    }
    let name = trim(&subvec(line, 0, hash));
    let digits = trim(&subvec(line, hash + 1, line.len()));
    match ColourValue::from_chars(&digits) {
        Some(v) => match key_with_name(&name) {
            Some(k) => Some((k, v)),
            None => None,
        },
        None => None,
    }
}

/// The palette that the text of a backup holds. A line that names no key, or
/// gives no colour of six hexadecimal digits, is passed over.
pub fn read_colours_backup(backup: &str) -> (colours: PaletteMap)
    ensures
        colours@ == restored(backup@),
        is_palette(colours@),
{
    let ls = split_lines(&chars_of(backup));
    let mut colours = PaletteMap::new();
    let mut i: usize = 0;
    assert(colours@ =~= palette_of(backup_entries(views(ls@)).take(0)));
    while i < ls.len()
        invariant
            i <= ls.len(),
            colours@ == palette_of(backup_entries(views(ls@)).take(i as int)),
        decreases ls.len() - i,
    {
        let ghost all = backup_entries(views(ls@));
        proof {
            lemma_palette_of_push(all.take(i as int), all[i as int]);
            assert(all.take(i + 1) == all.take(i as int).push(all[i as int]));
        }
        match read_backup_line(&ls[i]) {
            Some((k, v)) => {
                colours.insert(k, v);
            },
            None => {},
        }
        i += 1;
    }
    assert(backup_entries(views(ls@)).take(ls.len() as int) == backup_entries(views(ls@)));
    proof {
        use_type_invariant(&colours);
    }
    colours
}

/// The configuration text with the colours of a backup in it.
pub fn load_colours_from_backup(content: &str, backup: &str) -> (updated: String)
    ensures
        updated@ == substituted(content@, restored(backup@)),
{
    let colours = read_colours_backup(backup);
    update_kitty_config_with_colours(content, &colours)
}

/// The listing that shows the palette of a configuration text: a heading, a
/// line for each of the nineteen keys with its colour or the remark that it
/// has none, and a closing line.
pub fn print_current_colours_to_terminal(content: &str) -> (listing: String)
    ensures
        listing@ == join_lines(listing_lines(extracted(content@))),
{
    let current = extract_current_colours(content);
    let mut out: Vec<char> = Vec::new();
    let ghost top = seq![Seq::<char>::empty(), "--- Current Kitty Colours ---"@];
    let ghost keys = Seq::new(19, |i: int| listing_line(current@, key_at(i)));
    out.push('\n');
    append(&mut out, &chars_of("--- Current Kitty Colours ---"));
    out.push('\n');
    proof {
        assert(top.drop_last() =~= seq![Seq::<char>::empty()]);
        assert(top.drop_last().drop_last() =~= Seq::<Seq<char>>::empty());
        assert(join_lines(top.drop_last().drop_last()) =~= Seq::<char>::empty());
        assert(join_lines(top.drop_last()) =~= seq!['\n']);
        assert(out@ =~= join_lines(top));
        assert(top + keys.take(0) =~= top);
    }
    let mut i: usize = 0;
    while i < KEY_COUNT
        invariant
            i <= 19,
            top == seq![Seq::<char>::empty(), "--- Current Kitty Colours ---"@],
            keys == Seq::new(19, |i: int| listing_line(current@, key_at(i))),
            out@ == join_lines(top + keys.take(i as int)),
        decreases 19 - i,
    {
        let k = key_of_index(i);
        let ghost before = out@;
        assert((top + keys.take(i + 1)).drop_last() =~= top + keys.take(i as int));
        assert((top + keys.take(i + 1)).last() == listing_line(current@, k));
        append(&mut out, &chars_of(k.name()));
        match current.get(k) {
            Some(v) => {
                append(&mut out, &chars_of(": #"));
                append(&mut out, &v.chars());
            },
            None => {
                append(&mut out, &chars_of(": (Not found in config, defaulting to #000000)"));
            },
        }
        out.push('\n');
        assert(out@ =~= before + listing_line(current@, k) + seq!['\n']);
        i += 1;
    }
    let ghost before = out@;
    append(&mut out, &chars_of("-----------------------------"));
    out.push('\n');
    proof {
        let all = listing_lines(current@);
        assert(keys.take(19) == keys);
        assert(all.drop_last() =~= top + keys);
        assert(all.last() == "-----------------------------"@);
        assert(out@ =~= before + "-----------------------------"@ + seq!['\n']);
    }
    string_of(&out)
}

} // verus!
