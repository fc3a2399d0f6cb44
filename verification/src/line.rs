//! One line of the configuration file: whether it sets a colour, which, and
//! how it reads once the colour is replaced.

use crate::keys::{
    key_at, key_index, key_name, key_of_index, lemma_key_at, lemma_key_index,
    lemma_key_name_chars, lemma_key_names_distinct, ColourKey, KEY_COUNT,
};
use crate::palette::PaletteMap;
use crate::text::{
    append, chars_of, is_whitespace, lemma_skip_ws, skip_whitespace, skip_ws, subvec, trim,
    trim_end_at, trim_end_before, trimmed,
};
use crate::value::{is_colour_value, ColourValue};
use vstd::prelude::*;

verus! {

/// Whether `pat` stands in `s` at index `at`.
pub open spec fn starts_with_at(s: Seq<char>, at: int, pat: Seq<char>) -> bool {
    0 <= at && at + pat.len() <= s.len() && s.subrange(at, at + pat.len()) == pat
}

/// The index of the `#` by which `line` sets the key `k`: the line begins,
/// after whitespace, with the key's name, and between the name and the first
/// `#` after it there is nothing but whitespace.
pub open spec fn hash_of_key(line: Seq<char>, k: ColourKey) -> Option<int> {
    let start = skip_ws(line, 0);
    let hash = skip_ws(line, start + key_name(k).len());
    if starts_with_at(line, start, key_name(k)) && hash < line.len() && line[hash] == '#' {
        Some(hash)
    } else {
        None
    }
}

/// The first key from place `i` on that `line` sets, with the index of its
/// `#`.
pub open spec fn colour_line_from(line: Seq<char>, i: int) -> Option<(ColourKey, int)>
    decreases 19 - i,
{
    if i < 0 || i >= 19 {
        None
    } else if hash_of_key(line, key_at(i)) is Some {
        Some((key_at(i), hash_of_key(line, key_at(i))->0))
    } else {
        colour_line_from(line, i + 1)
    }
}

/// The key that `line` sets, with the index of its `#`.
pub open spec fn colour_line(line: Seq<char>) -> Option<(ColourKey, int)> {
    colour_line_from(line, 0)
}

/// The key that `line` sets.
pub open spec fn line_key(line: Seq<char>) -> Option<ColourKey> {
    match colour_line(line) {
        Some((k, _)) => Some(k),
        None => None,
    }
}

/// The key and the colour that `line` gives it: the line sets the key, and what
/// follows the `#` is, once trimmed, six hexadecimal digits.
pub open spec fn line_colour(line: Seq<char>) -> Option<(ColourKey, Seq<char>)> {
    match colour_line(line) {
        Some((k, hash)) => {
            let v = trimmed(line.skip(hash + 1));
            if is_colour_value(v) {
                Some((k, v))
            } else {
                None
            }
        },
        None => None,
    }
}

/// Whether `line` sets a key to which `palette` gives a colour.
pub open spec fn is_rewritten(line: Seq<char>, palette: Map<ColourKey, Seq<char>>) -> bool {
    match line_key(line) {
        Some(k) => palette.dom().contains(k),
        None => false,
    }
}

/// The line with the colour of `palette` in it: what stands before the `#`,
/// without its trailing whitespace, then a space, `#` and the new colour. A
/// line that sets no key, or a key without a colour in `palette`, stays as it
/// is.
pub open spec fn rewritten_line(line: Seq<char>, palette: Map<ColourKey, Seq<char>>) -> Seq<
    char,
> {
    if is_rewritten(line, palette) {
        let (k, hash) = colour_line(line)->0;
        line.take(trim_end_at(line, hash)) + seq![' ', '#'] + palette[k]
    } else {
        line
    }
}

proof fn lemma_colour_line_from(line: Seq<char>, i: int)
    requires
        0 <= i <= 19,
    ensures
        colour_line_from(line, i) matches Some((k, hash)) ==> hash_of_key(line, k) == Some(hash)
            && i <= key_index(k),
        colour_line_from(line, i) is None ==> forall|k: ColourKey|
            i <= key_index(k) ==> #[trigger] hash_of_key(line, k) is None,
    decreases 19 - i,
{
    if i < 19 {
        lemma_key_at(i);
        if hash_of_key(line, key_at(i)) is None {
            lemma_colour_line_from(line, i + 1);
            if colour_line_from(line, i) is None {
                assert forall|k: ColourKey| i <= key_index(k) implies #[trigger] hash_of_key(
                    line,
                    k,
                ) is None by {
                    lemma_key_index(k);
                }
            }
        }
    } else {
        assert forall|k: ColourKey| i <= key_index(k) implies #[trigger] hash_of_key(line, k)
            is None by {
            lemma_key_index(k);
        }
    }
}

/// A line sets at most one key. The name of one key may begin the name of
/// another, as `color1` begins `color10`; the longer name then goes on with a
/// digit where the shorter one needs whitespace or the `#`.
pub proof fn lemma_line_sets_one_key(line: Seq<char>, a: ColourKey, b: ColourKey)
    requires
        hash_of_key(line, a) is Some,
        hash_of_key(line, b) is Some,
    ensures
        a == b,
{
    let start = skip_ws(line, 0);
    let na = key_name(a);
    let nb = key_name(b);
    lemma_key_name_chars(a);
    lemma_key_name_chars(b);
    lemma_skip_ws(line, 0);
    if na.len() == nb.len() {
        lemma_key_names_distinct(a, b);
    } else if na.len() < nb.len() {
        lemma_name_goes_on(line, start, na, nb);
    } else {
        lemma_name_goes_on(line, start, nb, na);
    }
}

/// Where a longer name stands at `start`, a shorter name is followed by a
/// letter or a digit of the longer one: no `#` binds to the shorter.
proof fn lemma_name_goes_on(line: Seq<char>, start: int, short: Seq<char>, long: Seq<char>)
    requires
        0 <= start,
        short.len() < long.len(),
        starts_with_at(line, start, long),
        forall|i: int| 0 <= i < long.len() ==> crate::keys::is_key_char(#[trigger] long[i]),
    ensures
        ({
            let hash = skip_ws(line, start + short.len());
            !(hash < line.len() && line[hash] == '#')
        }),
{
    let at = start + short.len();
    assert(line[at] == line.subrange(start, start + long.len())[short.len() as int]);
    assert(crate::keys::is_key_char(long[short.len() as int]));
    assert(!is_whitespace(line[at]));
}

/// `colour_line(line)` is the one key that the line sets, with its `#`.
pub proof fn lemma_colour_line(line: Seq<char>)
    ensures
        forall|k: ColourKey| #[trigger]
            hash_of_key(line, k) is Some ==> colour_line(line) == Some(
                (k, hash_of_key(line, k)->0),
            ),
        colour_line(line) matches Some((k, hash)) ==> hash_of_key(line, k) == Some(hash) && 0
            <= skip_ws(line, 0) && skip_ws(line, 0) + key_name(k).len() <= hash < line.len()
            && line[hash] == '#',
{
    lemma_colour_line_from(line, 0);
    lemma_skip_ws(line, 0);
    assert forall|k: ColourKey| #[trigger] hash_of_key(line, k) is Some implies colour_line(line)
        == Some((k, hash_of_key(line, k)->0)) by {
        lemma_key_index(k);
        let (found, _) = colour_line(line)->0;
        lemma_line_sets_one_key(line, found, k);
    }
    if colour_line(line) is Some {
        let (k, _) = colour_line(line)->0;
        lemma_skip_ws(line, skip_ws(line, 0) + key_name(k).len());
    }
}

/// Whether `pat` stands in `v` at index `at`.
pub fn starts_with(v: &Vec<char>, at: usize, pat: &str) -> (b: bool)
    ensures
        b == starts_with_at(v@, at as int, pat@),
{
    let p = chars_of(pat);
    if p.len() > v.len() || at > v.len() - p.len() {
        return false;
    }
    let mut i: usize = 0;
    while i < p.len()
        invariant
            i <= p.len(),
            at + p.len() <= v.len(),
            p@ == pat@,
            forall|j: int| 0 <= j < i ==> v@[at + j] == p@[j],
        decreases p.len() - i,
    {
        if v[at + i] != p[i] {
            assert(v@.subrange(at as int, at + p.len())[i as int] == v@[at + i]);
            return false;
        }
        i += 1;
    }
    assert(v@.subrange(at as int, at + p.len()) =~= p@);
    true
}

/// The index of the `#` by which `line` sets the key `k`.
pub fn find_hash_of_key(line: &Vec<char>, k: ColourKey) -> (r: Option<usize>)
    ensures
        match r {
            Some(hash) => hash_of_key(line@, k) == Some(hash as int) && hash < line.len(),
            None => hash_of_key(line@, k) is None,
        },
{
    let start = skip_whitespace(line, 0);
    let name = k.name();
    if !starts_with(line, start, name) {
        return None;
    }
    let hash = skip_whitespace(line, start + name.unicode_len());
    if hash < line.len() && line[hash] == '#' {
        Some(hash)
    } else {
        None
    }
}

/// The key that `line` sets, with the index of its `#`.
pub fn find_colour_line(line: &Vec<char>) -> (r: Option<(ColourKey, usize)>)
    ensures
        match r {
            Some((k, hash)) => colour_line(line@) == Some((k, hash as int)) && hash < line.len(),
            None => colour_line(line@) is None,
        },
{
    let mut i: usize = 0;
    while i < KEY_COUNT
        invariant
            i <= 19,
            colour_line(line@) == colour_line_from(line@, i as int),
        decreases 19 - i,
    {
        let k = key_of_index(i);
        match find_hash_of_key(line, k) {
            Some(hash) => {
                return Some((k, hash));
            },
            None => {},
        }
        i += 1;
    }
    None
}

/// The key and the colour that `line` gives it.
pub fn read_colour_line(line: &Vec<char>) -> (r: Option<(ColourKey, ColourValue)>)
    ensures
        match r {
            Some((k, v)) => line_colour(line@) == Some((k, v@)),
            None => line_colour(line@) is None,
        },
{
    match find_colour_line(line) {
        Some((k, hash)) => {
            let rest = subvec(line, hash + 1, line.len());
            match ColourValue::from_chars(&trim(&rest)) {
                Some(v) => Some((k, v)),
                None => None,
            }
        },
        None => None,
    }
}

/// The line with the colour of `palette` in it.
pub fn rewrite_line(line: &Vec<char>, palette: &PaletteMap) -> (out: Vec<char>)
    ensures
        out@ == rewritten_line(line@, palette@),
{
    match find_colour_line(line) {
        Some((k, hash)) => {
            match palette.get(k) {
                Some(v) => {
                    let mut out = subvec(line, 0, trim_end_before(line, hash));
                    out.push(' ');
                    out.push('#');
                    append(&mut out, &v.chars());
                    assert(out@ =~= rewritten_line(line@, palette@));
                    out
                },
                None => line.clone(),
            }
        },
        None => line.clone(),
    }
}

} // verus!
