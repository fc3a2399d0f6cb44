//! Facts about single lines: what a rewritten line reads as, and what a
//! carriage return at the end of a line changes.

use crate::keys::{is_key_char, key_at, key_name, lemma_key_name_chars, ColourKey};
use crate::line::{
    colour_line, colour_line_from, hash_of_key, is_rewritten, lemma_colour_line, line_colour,
    rewritten_line, starts_with_at,
};
use crate::palette::is_palette;
use crate::text::{is_whitespace, lemma_skip_ws, skip_ws, strip_cr};
use crate::text_proofs::{
    has_no_line_feed, lemma_skip_ws_is, lemma_trim_end_at_is, lemma_trimmed_plain,
    lemma_trimmed_push,
};
use crate::value::is_colour_value;
use vstd::prelude::*;

verus! {

/// A line that was given a colour of `palette` is the key with its
/// indentation, a space, `#` and the colour. It sets the same key, gives it
/// that colour, and rewriting it again changes nothing.
pub proof fn lemma_rewritten_line(line: Seq<char>, palette: Map<ColourKey, Seq<char>>)
    requires
        is_palette(palette),
        is_rewritten(line, palette),
    ensures
        ({
            let (k, hash) = colour_line(line)->0;
            let key_end = skip_ws(line, 0) + key_name(k).len();
            let r = rewritten_line(line, palette);
            &&& r == line.take(key_end) + seq![' ', '#'] + palette[k]
            &&& colour_line(r) == Some((k, key_end + 1))
            &&& line_colour(r) == Some((k, palette[k]))
            &&& rewritten_line(r, palette) == r
            &&& strip_cr(r) == r
            &&& has_no_line_feed(line) ==> has_no_line_feed(r)
        }),
{
    let (k, hash) = colour_line(line)->0;
    let name = key_name(k);
    let n = name.len() as int;
    let s = skip_ws(line, 0);
    let e = s + n;
    let v = palette[k];
    lemma_colour_line(line);
    lemma_key_name_chars(k);
    lemma_skip_ws(line, 0);
    lemma_skip_ws(line, e);
    assert(line.subrange(s, e) == name);
    assert(line[s] == line.subrange(s, e)[0]);
    assert(line[e - 1] == line.subrange(s, e)[n - 1]);
    assert(is_key_char(name[0]) && is_key_char(name[n - 1]));
    lemma_trim_end_at_is(line, hash, e);
    let r = line.take(e) + seq![' ', '#'] + v;
    assert(rewritten_line(line, palette) == r);
    assert(is_colour_value(v));
    assert(r.len() == e + 8);
    assert forall|i: int| 0 <= i < e implies #[trigger] r[i] == line[i] by {}
    assert(r[e] == ' ');
    assert(r[e + 1] == '#');
    assert forall|j: int| 0 <= j < 6 implies #[trigger] r[e + 2 + j] == v[j] by {}
    // the rewritten line sets the same key
    assert forall|i: int| 0 <= i < s implies is_whitespace(#[trigger] r[i]) by {
        assert(r[i] == line[i]);
    }
    assert(r[s] == line[s]);
    lemma_skip_ws_is(r, 0, s);
    assert(r.subrange(s, e) =~= line.subrange(s, e));
    assert(starts_with_at(r, s, name));
    lemma_skip_ws_is(r, e, e + 1);
    assert(hash_of_key(r, k) == Some(e + 1));
    lemma_colour_line(r);
    // and gives it the colour of the palette
    assert(r.skip(e + 2) =~= v);
    assert(crate::value::is_hex_digit(v[0]) && crate::value::is_hex_digit(v[5]));
    assert(v.last() == v[5]);
    lemma_trimmed_plain(v);
    assert(line_colour(r) == Some((k, v)));
    // rewriting it again changes nothing
    assert(r[e - 1] == line[e - 1]);
    lemma_trim_end_at_is(r, e + 1, e);
    assert(r.take(e) =~= line.take(e));
    assert(rewritten_line(r, palette) == r);
    assert(r.last() == v[5]);
    if has_no_line_feed(line) {
        assert forall|i: int| 0 <= i < r.len() implies #[trigger] r[i] != '\n' by {
            if i < e {
                assert(r[i] == line[i]);
            } else if i >= e + 2 {
                assert(r[i] == v[i - e - 2]);
                assert(r[e + 2 + (i - e - 2)] == v[i - e - 2]);
            }
        }
    }
}

/// A carriage return at the end of a line does not change whether the line
/// sets the key `k`, nor where.
proof fn lemma_hash_of_key_push_cr(x: Seq<char>, k: ColourKey)
    ensures
        hash_of_key(x.push('\r'), k) == hash_of_key(x, k),
{
    let l = x.push('\r');
    let name = key_name(k);
    let n = name.len() as int;
    let len = x.len() as int;
    let s = skip_ws(x, 0);
    lemma_key_name_chars(k);
    lemma_skip_ws(x, 0);
    assert forall|i: int| 0 <= i < len implies #[trigger] l[i] == x[i] by {}
    assert(is_whitespace('\r'));
    if s == len {
        assert forall|i: int| 0 <= i < len + 1 implies is_whitespace(#[trigger] l[i]) by {
            if i < len {
                assert(l[i] == x[i]);
            }
        }
        lemma_skip_ws_is(l, 0, len + 1);
    } else {
        assert forall|i: int| 0 <= i < s implies is_whitespace(#[trigger] l[i]) by {
            assert(l[i] == x[i]);
        }
        assert(l[s] == x[s]);
        lemma_skip_ws_is(l, 0, s);
        let e = s + n;
        if e <= len {
            assert(l.subrange(s, e) =~= x.subrange(s, e));
            if starts_with_at(x, s, name) {
                lemma_skip_ws(x, e);
                let hash = skip_ws(x, e);
                if hash < len {
                    assert forall|i: int| e <= i < hash implies is_whitespace(#[trigger] l[i]) by {
                        assert(l[i] == x[i]);
                    }
                    assert(l[hash] == x[hash]);
                    lemma_skip_ws_is(l, e, hash);
                } else {
                    assert forall|i: int| e <= i < len + 1 implies is_whitespace(
                        #[trigger] l[i],
                    ) by {
                        if i < len {
                            assert(l[i] == x[i]);
                        }
                    }
                    lemma_skip_ws_is(l, e, len + 1);
                }
            }
        } else if e == len + 1 {
            if starts_with_at(l, s, name) {
                assert(l.subrange(s, e)[n - 1] == l[len]);
                assert(is_key_char(name[n - 1]));
            }
        }
    }
}

proof fn lemma_colour_line_from_push_cr(x: Seq<char>, i: int)
    requires
        0 <= i <= 19,
    ensures
        colour_line_from(x.push('\r'), i) == colour_line_from(x, i),
    decreases 19 - i,
{
    if i < 19 {
        lemma_hash_of_key_push_cr(x, key_at(i));
        lemma_colour_line_from_push_cr(x, i + 1);
    }
}

/// A line without the carriage return at its end sets the same key at the
/// same place, and gives it the same colour.
pub proof fn lemma_strip_cr_line(line: Seq<char>)
    ensures
        colour_line(strip_cr(line)) == colour_line(line),
        line_colour(strip_cr(line)) == line_colour(line),
{
    if line.len() > 0 && line.last() == '\r' {
        let x = line.drop_last();
        assert(line =~= x.push('\r'));
        lemma_colour_line_from_push_cr(x, 0);
        if colour_line(line) is Some {
            let (k, hash) = colour_line(line)->0;
            lemma_colour_line(line);
            assert(hash < x.len());
            assert(line.skip(hash + 1) =~= x.skip(hash + 1).push('\r'));
            lemma_trimmed_push(x.skip(hash + 1), '\r');
        }
    }
}

} // verus!
