//! The palette of a configuration text: reading it and writing it back.

use crate::keys::ColourKey;
use crate::line::{line_colour, read_colour_line, rewrite_line, rewritten_line};
use crate::palette::{is_palette, lemma_palette_of_push, palette_of, PaletteMap};
use crate::text::{append, chars_of, join_lines, lines, split_lines, string_of, views};
use vstd::prelude::*;

verus! {

/// What each of the lines `ls` gives to a key.
pub open spec fn line_colours(ls: Seq<Seq<char>>) -> Seq<Option<(ColourKey, Seq<char>)>> {
    ls.map_values(|l: Seq<char>| line_colour(l))
}

/// The palette that a configuration text holds: for each key the colour on the
/// last line that gives it one.
pub open spec fn extracted(text: Seq<char>) -> Map<ColourKey, Seq<char>> {
    palette_of(line_colours(lines(text)))
}

/// The lines `ls`, each with the colour of `palette` in it.
pub open spec fn rewritten_lines(ls: Seq<Seq<char>>, palette: Map<ColourKey, Seq<char>>) -> Seq<
    Seq<char>,
> {
    ls.map_values(|l: Seq<char>| rewritten_line(l, palette))
}

/// The configuration text with the colours of `palette` in it: line by line,
/// each line ended by a line feed.
pub open spec fn substituted(text: Seq<char>, palette: Map<ColourKey, Seq<char>>) -> Seq<char> {
    join_lines(rewritten_lines(lines(text), palette))
}

/// The palette that the lines hold.
pub fn palette_from_lines(ls: &Vec<Vec<char>>) -> (colours: PaletteMap)
    ensures
        colours@ == palette_of(line_colours(views(ls@))),
{
    let mut colours = PaletteMap::new();
    let mut i: usize = 0;
    assert(colours@ =~= palette_of(line_colours(views(ls@)).take(0)));
    while i < ls.len()
        invariant
            i <= ls.len(),
            colours@ == palette_of(line_colours(views(ls@)).take(i as int)),
        decreases ls.len() - i,
    {
        let ghost all = line_colours(views(ls@));
        proof {
            lemma_palette_of_push(all.take(i as int), all[i as int]);
            assert(all.take(i + 1) == all.take(i as int).push(all[i as int]));
        }
        match read_colour_line(&ls[i]) {
            Some((k, v)) => {
                colours.insert(k, v);
            },
            None => {},
        }
        i += 1;
    }
    assert(line_colours(views(ls@)).take(ls.len() as int) == line_colours(views(ls@)));
    colours
}

/// The palette that a configuration text holds: the colour of each of the
/// nineteen keys that some line sets to six hexadecimal digits.
pub fn extract_current_colours(content: &str) -> (colours: PaletteMap)
    ensures
        colours@ == extracted(content@),
        is_palette(colours@),
{
    let text = chars_of(content);
    let ls = split_lines(&text);
    let colours = palette_from_lines(&ls);
    proof {
        use_type_invariant(&colours);
    }
    colours
}

/// The configuration text with the colours of `colours_to_apply` in it. A
/// line that sets a key of the palette gets the palette's colour; every other
/// line is kept as it is. Each line of the result ends with a line feed.
pub fn update_kitty_config_with_colours(content: &str, colours_to_apply: &PaletteMap) -> (updated:
    String)
    ensures
        updated@ == substituted(content@, colours_to_apply@),
{
    let text = chars_of(content);
    let ls = split_lines(&text);
    let mut out: Vec<char> = Vec::new();
    let mut i: usize = 0;
    assert(rewritten_lines(views(ls@), colours_to_apply@).take(0) =~= Seq::<Seq<char>>::empty());
    while i < ls.len()
        invariant
            i <= ls.len(),
            out@ == join_lines(rewritten_lines(views(ls@), colours_to_apply@).take(i as int)),
        decreases ls.len() - i,
    {
        let ghost all = rewritten_lines(views(ls@), colours_to_apply@);
        let line = rewrite_line(&ls[i], colours_to_apply);
        assert(all.take(i + 1).drop_last() == all.take(i as int));
        assert(all.take(i + 1).last() == line@);
        append(&mut out, &line);
        out.push('\n');
        assert(out@ =~= join_lines(all.take(i as int)) + line@ + seq!['\n']);
        i += 1;
    }
    assert(rewritten_lines(views(ls@), colours_to_apply@).take(ls.len() as int)
        == rewritten_lines(views(ls@), colours_to_apply@));
    string_of(&out)
}

} // verus!
