//! What holds of reading a palette and writing it back, for every text and
//! every palette.

use crate::backup::{backup_entries, backup_entry, backup_line, backup_lines, backup_text, restored};
use crate::colours::{extracted, line_colours, rewritten_lines, substituted};
use crate::keys::{
    is_key_char, key_at, key_index, key_name, lemma_key_index, lemma_key_name_chars,
    lemma_key_named, ColourKey,
};
use crate::line::{
    hash_of_key, is_rewritten, lemma_colour_line, line_colour, line_key, rewritten_line,
    starts_with_at,
};
use crate::line_proofs::{lemma_rewritten_line, lemma_strip_cr_line};
use crate::palette::{
    entry_colour, is_palette, last_colour, lemma_last_colour, lemma_last_colour_same,
    value_or_black,
};
use crate::select::takes_part;
use crate::text::{
    is_whitespace, join_lines, lemma_skip_ws, lemma_trim_end_at, lines, skip_ws, strip_cr,
    trim_end_at, trimmed,
};
use crate::text_proofs::{
    has_no_line_feed, lemma_find_char_is, lemma_join_lines_add, lemma_join_lines_one,
    lemma_lines_are_lines, lemma_lines_of_join, lemma_trimmed_plain, strip_cr_all,
};
use crate::value::{is_colour_value, is_hex_digit};
use vstd::prelude::*;

verus! {

/// Whether one of the lines `ls` sets the key `k`.
pub open spec fn sets_key(ls: Seq<Seq<char>>, k: ColourKey) -> bool {
    exists|i: int| 0 <= i < ls.len() && is_line_of_key(#[trigger] ls[i], k)
}

/// Whether `line` sets the key `k`.
pub open spec fn is_line_of_key(line: Seq<char>, k: ColourKey) -> bool {
    line_key(line) == Some(k)
}

/// Whether every line of `text` that `palette` leaves as it is ends without a
/// carriage return.
pub open spec fn kept_lines_end_plainly(text: Seq<char>, palette: Map<ColourKey, Seq<char>>) -> bool {
    forall|i: int|
        0 <= i < lines(text).len() && !is_rewritten(#[trigger] lines(text)[i], palette)
            ==> strip_cr(lines(text)[i]) == lines(text)[i]
}

/// Whether `text` sets every key of `palette`, and gives a colour to no key
/// outside it.
pub open spec fn holds_just_the_keys(text: Seq<char>, palette: Map<ColourKey, Seq<char>>) -> bool {
    &&& forall|k: ColourKey| palette.dom().contains(k) ==> sets_key(lines(text), k)
    &&& forall|k: ColourKey| #[trigger]
        extracted(text).dom().contains(k) ==> palette.dom().contains(k)
}

/// A blank line and a line that begins, after whitespace, with `#` set no
/// key: they give no colour and are not rewritten.
pub proof fn lemma_blank_and_comment_lines(line: Seq<char>, palette: Map<ColourKey, Seq<char>>)
    requires
        trimmed(line).len() == 0 || trimmed(line)[0] == '#',
    ensures
        line_key(line) is None,
        line_colour(line) is None,
        rewritten_line(line, palette) == line,
{
    let start = skip_ws(line, 0);
    lemma_skip_ws(line, 0);
    lemma_trim_end_at(line, line.len() as int);
    assert forall|k: ColourKey| hash_of_key(line, k) is None by {
        lemma_key_name_chars(k);
        if starts_with_at(line, start, key_name(k)) {
            assert(line[start] == line.subrange(start, start + key_name(k).len())[0]);
            assert(is_key_char(key_name(k)[0]));
            assert(!is_whitespace(line[start]));
            assert(start < trim_end_at(line, line.len() as int)) by {
                if trim_end_at(line, line.len() as int) <= start {
                    assert(is_whitespace(line[start]));
                }
            }
            assert(trimmed(line)[0] == line[start]);
        }
    }
    lemma_colour_line(line);
}

/// The lines of a text with the colours of `palette` in it are the lines of
/// the text, each rewritten, as many as before and in their order. Only a
/// carriage return at the end of a kept line is read as part of the line
/// ending.
pub proof fn lemma_lines_of_substituted(text: Seq<char>, palette: Map<ColourKey, Seq<char>>)
    requires
        is_palette(palette),
    ensures
        lines(substituted(text, palette)) == strip_cr_all(
            rewritten_lines(lines(text), palette),
        ),
        lines(substituted(text, palette)).len() == lines(text).len(),
{
    let ls = lines(text);
    let rs = rewritten_lines(ls, palette);
    lemma_lines_are_lines(text);
    assert forall|i: int| 0 <= i < rs.len() implies has_no_line_feed(
        #[trigger] rs[i],
    ) by {
        assert(has_no_line_feed(ls[i]));
        if is_rewritten(ls[i], palette) {
            lemma_rewritten_line(ls[i], palette);
        }
    }
    lemma_lines_of_join(rs);
}

/// A line that sets no key of `palette` stands in the new text as it stood in
/// the old one, behind the lines that came before it and before those that
/// came after it.
pub proof fn lemma_other_lines_are_kept(
    text: Seq<char>,
    palette: Map<ColourKey, Seq<char>>,
    i: int,
)
    requires
        0 <= i < lines(text).len(),
        !is_rewritten(lines(text)[i], palette),
    ensures
        substituted(text, palette) == join_lines(
            rewritten_lines(lines(text).take(i), palette),
        ) + lines(text)[i] + seq!['\n'] + join_lines(
            rewritten_lines(lines(text).skip(i + 1), palette),
        ),
{
    let ls = lines(text);
    let before = rewritten_lines(ls.take(i), palette);
    let after = rewritten_lines(ls.skip(i + 1), palette);
    assert(rewritten_lines(ls, palette) =~= before + seq![ls[i]] + after);
    lemma_join_lines_add(before + seq![ls[i]], after);
    lemma_join_lines_add(before, seq![ls[i]]);
    lemma_join_lines_one(ls[i]);
    assert(join_lines(before) + (ls[i] + seq!['\n']) =~= join_lines(before) + ls[i] + seq![
        '\n',
    ]);
}

/// Writing the same palette into a text a second time changes nothing, where
/// no line that the palette leaves as it is ends with a carriage return.
pub proof fn lemma_substitution_is_idempotent(text: Seq<char>, palette: Map<ColourKey, Seq<char>>)
    requires
        is_palette(palette),
        kept_lines_end_plainly(text, palette),
    ensures
        substituted(substituted(text, palette), palette) == substituted(text, palette),
{
    let ls = lines(text);
    let rs = rewritten_lines(ls, palette);
    let once = substituted(text, palette);
    lemma_lines_of_substituted(text, palette);
    assert(lines(once) =~= rs) by {
        assert forall|i: int| 0 <= i < rs.len() implies strip_cr(#[trigger] rs[i]) == rs[i] by {
            if is_rewritten(ls[i], palette) {
                lemma_rewritten_line(ls[i], palette);
            }
        }
    }
    assert(rewritten_lines(rs, palette) =~= rs) by {
        assert forall|i: int| 0 <= i < rs.len() implies rewritten_line(
            #[trigger] rs[i],
            palette,
        ) == rs[i] by {
            if is_rewritten(ls[i], palette) {
                lemma_rewritten_line(ls[i], palette);
            }
        }
    }
}

/// What a text with the colours of `palette` in it gives to the key `k`: for
/// a key of the palette, the palette's colour where a line of the old text
/// set the key, and none where no line did; for any other key, what the old
/// text gave it.
pub proof fn lemma_colour_after_substitution(
    text: Seq<char>,
    palette: Map<ColourKey, Seq<char>>,
    k: ColourKey,
)
    requires
        is_palette(palette),
    ensures
        ({
            let after = extracted(substituted(text, palette));
            if palette.dom().contains(k) {
                if sets_key(lines(text), k) {
                    after.dom().contains(k) && after[k] == palette[k]
                } else {
                    !after.dom().contains(k)
                }
            } else {
                after.dom().contains(k) == extracted(text).dom().contains(k) && (
                after.dom().contains(k) ==> after[k] == extracted(text)[k])
            }
        }),
{
    let ls = lines(text);
    let rs = rewritten_lines(ls, palette);
    let new_lines = lines(substituted(text, palette));
    let old_entries = line_colours(ls);
    let new_entries = line_colours(new_lines);
    lemma_lines_of_substituted(text, palette);
    // what each new line gives to a key
    assert forall|i: int| 0 <= i < ls.len() implies #[trigger] new_entries[i] == (if is_rewritten(
        ls[i],
        palette,
    ) {
        Some((line_key(ls[i])->0, palette[line_key(ls[i])->0]))
    } else {
        old_entries[i]
    }) by {
        assert(new_lines[i] == strip_cr(rs[i]));
        if is_rewritten(ls[i], palette) {
            lemma_rewritten_line(ls[i], palette);
        } else {
            lemma_strip_cr_line(ls[i]);
        }
    }
    if palette.dom().contains(k) {
        assert forall|i: int| 0 <= i < ls.len() implies (entry_colour(
            #[trigger] new_entries[i],
            k,
        ) is Some <==> is_line_of_key(ls[i], k)) && (entry_colour(new_entries[i], k) is Some
            ==> entry_colour(new_entries[i], k) == Some(palette[k])) by {}
        lemma_last_colour(new_entries, k, palette[k]);
        if sets_key(ls, k) {
            let i = choose|i: int| 0 <= i < ls.len() && is_line_of_key(#[trigger] ls[i], k);
            assert(entry_colour(new_entries[i], k) is Some);
        } else {
            if last_colour(new_entries, k) is Some {
                let i = choose|i: int|
                    0 <= i < new_entries.len() && entry_colour(
                        #[trigger] new_entries[i],
                        k,
                    ) is Some;
                assert(is_line_of_key(ls[i], k));
            }
        }
    } else {
        assert forall|i: int| 0 <= i < new_entries.len() implies entry_colour(
            #[trigger] new_entries[i],
            k,
        ) == entry_colour(old_entries[i], k) by {}
        lemma_last_colour_same(new_entries, old_entries, k);
    }
}

/// Reading the palette of a text into which `palette` was written gives
/// `palette` back, if and only if the text sets every key of the palette and
/// gives a colour to no other key.
pub proof fn lemma_round_trip(text: Seq<char>, palette: Map<ColourKey, Seq<char>>)
    requires
        is_palette(palette),
    ensures
        holds_just_the_keys(text, palette) <==> extracted(substituted(text, palette)) == palette,
{
    let after = extracted(substituted(text, palette));
    assert forall|k: ColourKey| true implies ({
        if palette.dom().contains(k) {
            if sets_key(lines(text), k) {
                #[trigger] after.dom().contains(k) && after[k] == palette[k]
            } else {
                !after.dom().contains(k)
            }
        } else {
            after.dom().contains(k) == extracted(text).dom().contains(k)
        }
    }) by {
        lemma_colour_after_substitution(text, palette, k);
    }
    if holds_just_the_keys(text, palette) {
        assert(after =~= palette);
    }
    if after == palette {
        assert forall|k: ColourKey| palette.dom().contains(k) implies sets_key(lines(text), k) by {
            assert(after.dom().contains(k));
        }
        assert forall|k: ColourKey| #[trigger]
            extracted(text).dom().contains(k) implies palette.dom().contains(k) by {
            assert(after.dom().contains(k) == palette.dom().contains(k));
        }
    }
}

/// Forcing some keys chooses the same keys as excepting all the others,
/// whatever is excepted beside the forced keys. At least one key must be
/// forced: forcing no key lets every key take part.
pub proof fn lemma_force_is_excepting_the_rest(
    forced: Seq<ColourKey>,
    others: Seq<ColourKey>,
    excepted_beside: Seq<ColourKey>,
)
    requires
        forced.len() > 0,
        forall|k: ColourKey| others.contains(k) <==> !forced.contains(k),
    ensures
        forall|k: ColourKey| #[trigger]
            takes_part(k, forced, excepted_beside) == takes_part(k, Seq::empty(), others),
{
}

/// The palette `m` with `000000` for each key that it gives no colour.
pub open spec fn filled(m: Map<ColourKey, Seq<char>>) -> Map<ColourKey, Seq<char>> {
    Map::new(|k: ColourKey| true, |k: ColourKey| value_or_black(m, k))
}

/// A line of a backup reads as the key and the colour that it was written
/// for.
proof fn lemma_backup_line(m: Map<ColourKey, Seq<char>>, k: ColourKey)
    requires
        is_palette(m),
    ensures
        backup_entry(backup_line(m, k)) == Some((k, value_or_black(m, k))),
        has_no_line_feed(backup_line(m, k)),
        strip_cr(backup_line(m, k)) == backup_line(m, k),
{
    let name = key_name(k);
    let n = name.len() as int;
    let v = value_or_black(m, k);
    let line = backup_line(m, k);
    lemma_key_name_chars(k);
    assert(is_colour_value(v));
    assert(line.len() == n + 7);
    assert forall|i: int| 0 <= i < n implies #[trigger] line[i] == name[i] by {}
    assert(line[n] == '#');
    assert forall|j: int| 0 <= j < 6 implies #[trigger] line[n + 1 + j] == v[j] by {}
    assert forall|i: int| 0 <= i < n implies #[trigger] line[i] != '#' by {
        assert(is_key_char(name[i]));
    }
    lemma_find_char_is(line, '#', 0, n);
    assert(line.take(n) =~= name);
    assert(is_key_char(name[0]) && is_key_char(name[n - 1]));
    lemma_trimmed_plain(name);
    lemma_key_named(name);
    assert(line.skip(n + 1) =~= v);
    assert(is_hex_digit(v[0]) && is_hex_digit(v[5]));
    lemma_trimmed_plain(v);
    assert(line.last() == v[5]);
    assert forall|i: int| 0 <= i < line.len() implies #[trigger] line[i] != '\n' by {
        if i < n {
            assert(is_key_char(name[i]));
        } else if i > n {
            assert(line[n + 1 + (i - n - 1)] == v[i - n - 1]);
            assert(is_hex_digit(v[i - n - 1]));
        }
    }
}

/// Reading a backup of a palette gives the palette back, with `000000` for
/// each key that it gave no colour.
pub proof fn lemma_backup_round_trip(m: Map<ColourKey, Seq<char>>)
    requires
        is_palette(m),
    ensures
        restored(backup_text(m)) == filled(m),
{
    let written = backup_lines(m);
    assert forall|i: int| 0 <= i < 19 implies has_no_line_feed(#[trigger] written[i]) && strip_cr(
        written[i],
    ) == written[i] && backup_entry(written[i]) == Some(
        (key_at(i), value_or_black(m, key_at(i))),
    ) by {
        lemma_backup_line(m, key_at(i));
    }
    lemma_lines_of_join(written);
    assert(lines(backup_text(m)) =~= written);
    let entries = backup_entries(written);
    assert forall|k: ColourKey| #[trigger] last_colour(entries, k) == Some(value_or_black(m, k)) by {
        lemma_key_index(k);
        assert forall|i: int|
            0 <= i < entries.len() && entry_colour(
                #[trigger] entries[i],
                k,
            ) is Some implies entry_colour(entries[i], k) == Some(value_or_black(m, k)) by {}
        lemma_last_colour(entries, k, value_or_black(m, k));
        assert(entry_colour(entries[key_index(k)], k) is Some);
    }
    assert(restored(backup_text(m)) =~= filled(m));
}

} // verus!
