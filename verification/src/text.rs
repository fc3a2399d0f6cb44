//! Text as a sequence of characters: whitespace, trimming, lines and
//! comma-separated lists.
//!
//! Everything here is stated over `Seq<char>`, the view of `str`, `String` and
//! `Vec<char>`. The executable functions work on `Vec<char>`, so that a
//! character is reached by its index in constant time.

use vstd::prelude::*;

verus! {

/// `String::push` of the standard library appends one character to the end of
/// the string: the view afterwards is the view before with `ch` pushed.
pub assume_specification[ String::push ](s: &mut String, ch: char)
    ensures
        final(s)@ == old(s)@.push(ch),
;

/// The characters with the Unicode property `White_Space`.
pub open spec fn is_whitespace(c: char) -> bool {
    ||| '\u{9}' <= c <= '\u{d}'
    ||| c == ' '
    ||| c == '\u{85}'
    ||| c == '\u{a0}'
    ||| c == '\u{1680}'
    ||| '\u{2000}' <= c <= '\u{200a}'
    ||| c == '\u{2028}'
    ||| c == '\u{2029}'
    ||| c == '\u{202f}'
    ||| c == '\u{205f}'
    ||| c == '\u{3000}'
}

/// The index of the first character at or after `from` that is not
/// whitespace, or the length of `s` where there is none.
pub open spec fn skip_ws(s: Seq<char>, from: int) -> int
    decreases s.len() - from,
{
    if 0 <= from < s.len() && is_whitespace(s[from]) {
        skip_ws(s, from + 1)
    } else {
        from
    }
}

/// The end of `s.take(to)` once its trailing whitespace is cut off.
pub open spec fn trim_end_at(s: Seq<char>, to: int) -> int
    decreases to,
{
    if 0 < to <= s.len() && is_whitespace(s[to - 1]) {
        trim_end_at(s, to - 1)
    } else {
        to
    }
}

/// `s` without its leading and trailing whitespace.
pub open spec fn trimmed(s: Seq<char>) -> Seq<char> {
    let a = skip_ws(s, 0);
    let b = trim_end_at(s, s.len() as int);
    if a <= b {
        s.subrange(a, b)
    } else {
        Seq::empty()
    }
}

/// The index of the first `c` at or after `from`, or the length of `s` where
/// there is none.
pub open spec fn find_char(s: Seq<char>, c: char, from: int) -> int
    decreases s.len() - from,
{
    if 0 <= from < s.len() && s[from] != c {
        find_char(s, c, from + 1)
    } else {
        from
    }
}

/// `s` without one carriage return at its end.
pub open spec fn strip_cr(s: Seq<char>) -> Seq<char> {
    if s.len() > 0 && s.last() == '\r' {
        s.drop_last()
    } else {
        s
    }
}

/// The lines of `s` that begin at or after `from`.
pub open spec fn lines_from(s: Seq<char>, from: int) -> Seq<Seq<char>>
    decreases s.len() - from,
{
    if from < 0 || from >= s.len() {
        Seq::empty()
    } else {
        let nl = find_char(s, '\n', from);
        if nl >= s.len() {
            seq![s.subrange(from, s.len() as int)]
        } else {
            proof {
                lemma_find_char(s, '\n', from);
            }
            seq![strip_cr(s.subrange(from, nl))] + lines_from(s, nl + 1)
        }
    }
}

/// The lines of a text. A line ends at a line feed; a carriage return just
/// before that line feed belongs to the line ending. The last line needs no
/// line feed, and keeps a carriage return at its end where it has none.
pub open spec fn lines(s: Seq<char>) -> Seq<Seq<char>> {
    lines_from(s, 0)
}

/// Each line followed by a line feed, one after the other.
pub open spec fn join_lines(ls: Seq<Seq<char>>) -> Seq<char>
    decreases ls.len(),
{
    if ls.len() == 0 {
        Seq::empty()
    } else {
        join_lines(ls.drop_last()) + ls.last() + seq!['\n']
    }
}

/// The pieces of `s` between the occurrences of `sep` at or after `from`.
pub open spec fn pieces_from(s: Seq<char>, sep: char, from: int) -> Seq<Seq<char>>
    decreases s.len() - from,
{
    if from < 0 || from > s.len() {
        Seq::empty()
    } else {
        let i = find_char(s, sep, from);
        if i >= s.len() {
            seq![s.subrange(from, s.len() as int)]
        } else {
            proof {
                lemma_find_char(s, sep, from);
            }
            seq![s.subrange(from, i)] + pieces_from(s, sep, i + 1)
        }
    }
}

/// The pieces of `s` between the occurrences of `sep`: one more piece than
/// there are separators.
pub open spec fn pieces(s: Seq<char>, sep: char) -> Seq<Seq<char>> {
    pieces_from(s, sep, 0)
}

/// The pieces, each trimmed, without those that are empty then.
pub open spec fn nonempty_trimmed(ps: Seq<Seq<char>>) -> Seq<Seq<char>>
    decreases ps.len(),
{
    if ps.len() == 0 {
        Seq::empty()
    } else {
        let rest = nonempty_trimmed(ps.drop_last());
        let t = trimmed(ps.last());
        if t.len() == 0 {
            rest
        } else {
            rest.push(t)
        }
    }
}

/// The items of a comma-separated list: what stands between the commas,
/// trimmed, empty items left out.
pub open spec fn list_items(s: Seq<char>) -> Seq<Seq<char>> {
    nonempty_trimmed(pieces(s, ','))
}

/// The views of the vectors of `v`, in their order.
pub open spec fn views(v: Seq<Vec<char>>) -> Seq<Seq<char>> {
    Seq::new(v.len(), |i: int| v[i]@)
}

/// The views of the strings of `v`, in their order.
pub open spec fn string_views(v: Seq<String>) -> Seq<Seq<char>> {
    Seq::new(v.len(), |i: int| v[i]@)
}

/// Skipping whitespace from `from` ends within the text, passes over
/// whitespace only, and ends at a character that is none.
pub proof fn lemma_skip_ws(s: Seq<char>, from: int)
    requires
        0 <= from <= s.len(),
    ensures
        from <= skip_ws(s, from) <= s.len(),
        forall|i: int| from <= i < skip_ws(s, from) ==> is_whitespace(#[trigger] s[i]),
        skip_ws(s, from) < s.len() ==> !is_whitespace(s[skip_ws(s, from)]),
    decreases s.len() - from,
{
    if from < s.len() && is_whitespace(s[from]) {
        lemma_skip_ws(s, from + 1);
    }
}

/// Cutting off trailing whitespace before `to` ends within the text, cuts off
/// whitespace only, and ends behind a character that is none.
pub proof fn lemma_trim_end_at(s: Seq<char>, to: int)
    requires
        0 <= to <= s.len(),
    ensures
        0 <= trim_end_at(s, to) <= to,
        forall|i: int| trim_end_at(s, to) <= i < to ==> is_whitespace(#[trigger] s[i]),
        trim_end_at(s, to) > 0 ==> !is_whitespace(s[trim_end_at(s, to) - 1]),
    decreases to,
{
    if 0 < to && is_whitespace(s[to - 1]) {
        lemma_trim_end_at(s, to - 1);
    }
}

/// The search for `c` from `from` ends within the text, passes over no `c`,
/// and ends at a `c` where it ends before the end.
pub proof fn lemma_find_char(s: Seq<char>, c: char, from: int)
    requires
        0 <= from <= s.len(),
    ensures
        from <= find_char(s, c, from) <= s.len(),
        forall|i: int| from <= i < find_char(s, c, from) ==> #[trigger] s[i] != c,
        find_char(s, c, from) < s.len() ==> s[find_char(s, c, from)] == c,
    decreases s.len() - from,
{
    if from < s.len() && s[from] != c {
        lemma_find_char(s, c, from + 1);
    }
}

/// Whether `c` has the Unicode property `White_Space`.
pub fn is_whitespace_char(c: char) -> (b: bool)
    ensures
        b == is_whitespace(c),
{
    ('\u{9}' <= c && c <= '\u{d}') || c == ' ' || c == '\u{85}' || c == '\u{a0}' || c
        == '\u{1680}' || ('\u{2000}' <= c && c <= '\u{200a}') || c == '\u{2028}' || c
        == '\u{2029}' || c == '\u{202f}' || c == '\u{205f}' || c == '\u{3000}'
}

/// The characters of a string.
pub fn chars_of(s: &str) -> (out: Vec<char>)
    ensures
        out@ == s@,
{
    broadcast use vstd::string::group_string_axioms;

    let mut out: Vec<char> = Vec::new();
    for c in it: s.chars()
        invariant
            out@ == it.history(),
            it.seq() == s@,
    {
        out.push(c);
    }
    out
}

/// The string made of the characters of `v`.
pub fn string_of(v: &Vec<char>) -> (out: String)
    ensures
        out@ == v@,
{
    let mut out = String::new();
    let mut i: usize = 0;
    while i < v.len()
        invariant
            i <= v.len(),
            out@ == v@.take(i as int),
        decreases v.len() - i,
    {
        out.push(v[i]);
        i += 1;
    }
    out
}

/// The characters of `v` from index `from` up to, not including, `to`.
pub(crate) fn subvec(v: &Vec<char>, from: usize, to: usize) -> (out: Vec<char>)
    requires
        from <= to <= v.len(),
    ensures
        out@ == v@.subrange(from as int, to as int),
{
    let mut out: Vec<char> = Vec::new();
    let mut i: usize = from;
    while i < to
        invariant
            from <= i <= to <= v.len(),
            out@ == v@.subrange(from as int, i as int),
        decreases to - i,
    {
        out.push(v[i]);
        i += 1;
    }
    out
}

/// Appends the characters of `v` to `out`.
pub fn append(out: &mut Vec<char>, v: &Vec<char>)
    ensures
        final(out)@ == old(out)@ + v@,
{
    let mut i: usize = 0;
    while i < v.len()
        invariant
            i <= v.len(),
            out@ == old(out)@ + v@.take(i as int),
        decreases v.len() - i,
    {
        out.push(v[i]);
        i += 1;
    }
}

/// Whether `v` holds exactly the characters of `s`.
pub fn same_chars(v: &Vec<char>, s: &str) -> (b: bool)
    ensures
        b == (v@ == s@),
{
    let w = chars_of(s);
    if v.len() != w.len() {
        return false;
    }
    let mut i: usize = 0;
    while i < v.len()
        invariant
            i <= v.len(),
            v.len() == w.len(),
            w@ == s@,
            v@.take(i as int) == w@.take(i as int),
        decreases v.len() - i,
    {
        if v[i] != w[i] {
            return false;
        }
        assert(v@.take(i + 1) == v@.take(i as int).push(v@[i as int]));
        assert(w@.take(i + 1) == w@.take(i as int).push(w@[i as int]));
        i += 1;
    }
    assert(v@ == v@.take(v.len() as int));
    assert(w@ == w@.take(w.len() as int));
    true
}

/// The index of the first character of `v` at or after `from` that is not
/// whitespace.
pub fn skip_whitespace(v: &Vec<char>, from: usize) -> (at: usize)
    ensures
        at == skip_ws(v@, from as int),
        from <= at,
        from <= v.len() ==> at <= v.len(),
{
    let mut i: usize = from;
    while i < v.len() && is_whitespace_char(v[i])
        invariant
            from <= i,
            from <= v.len() ==> i <= v.len(),
            skip_ws(v@, from as int) == skip_ws(v@, i as int),
        decreases v.len() - i,
    {
        i += 1;
    }
    i
}

/// The end of the first `to` characters of `v` once their trailing
/// whitespace is cut off.
pub fn trim_end_before(v: &Vec<char>, to: usize) -> (at: usize)
    ensures
        at == trim_end_at(v@, to as int),
        at <= to,
{
    let mut b: usize = to;
    while b > 0 && b <= v.len() && is_whitespace_char(v[b - 1])
        invariant
            b <= to,
            trim_end_at(v@, to as int) == trim_end_at(v@, b as int),
        decreases b,
    {
        b -= 1;
    }
    b
}

/// `v` without its leading and trailing whitespace.
pub fn trim(v: &Vec<char>) -> (out: Vec<char>)
    ensures
        out@ == trimmed(v@),
{
    let a = skip_whitespace(v, 0);
    let b = trim_end_before(v, v.len());
    if a <= b {
        subvec(v, a, b)
    } else {
        Vec::new()
    }
}

/// The index of the first `c` in `v` at or after `from`, or the length of `v`
/// where there is none; `from` itself where it lies behind the end.
pub fn find(v: &Vec<char>, c: char, from: usize) -> (at: usize)
    ensures
        at == find_char(v@, c, from as int),
        from <= at,
        from <= v.len() ==> at <= v.len(),
{
    let mut i: usize = from;
    while i < v.len() && v[i] != c
        invariant
            from <= i,
            from <= v.len() ==> i <= v.len(),
            find_char(v@, c, from as int) == find_char(v@, c, i as int),
        decreases v.len() - i,
    {
        i += 1;
    }
    i
}

/// The lines of a text, as `str::lines` gives them.
pub fn split_lines(v: &Vec<char>) -> (out: Vec<Vec<char>>)
    ensures
        views(out@) == lines(v@),
{
    let mut out: Vec<Vec<char>> = Vec::new();
    let mut pos: usize = 0;
    while pos < v.len()
        invariant
            pos <= v.len(),
            lines(v@) == views(out@) + lines_from(v@, pos as int),
        decreases v.len() - pos,
    {
        let nl = find(v, '\n', pos);
        let ghost before = views(out@);
        if nl >= v.len() {
            let line = subvec(v, pos, v.len());
            out.push(line);
            assert(views(out@) == before.push(line@));
            assert(lines_from(v@, v.len() as int) == Seq::<Seq<char>>::empty());
            assert(before + seq![line@] == views(out@) + Seq::<Seq<char>>::empty());
            pos = v.len();
        } else {
            let end = if nl > pos && v[nl - 1] == '\r' {
                nl - 1
            } else {
                nl
            };
            let line = subvec(v, pos, end);
            assert(line@ == strip_cr(v@.subrange(pos as int, nl as int)));
            out.push(line);
            assert(views(out@) == before.push(line@));
            assert(before + (seq![line@] + lines_from(v@, nl + 1)) == views(out@) + lines_from(
                v@,
                nl + 1,
            ));
            pos = nl + 1;
        }
    }
    assert(views(out@) + Seq::<Seq<char>>::empty() == views(out@));
    out
}

/// The pieces of `v` between the occurrences of `sep`, as `str::split` gives
/// them.
pub fn split_on(v: &Vec<char>, sep: char) -> (out: Vec<Vec<char>>)
    ensures
        views(out@) == pieces(v@, sep),
{
    let mut out: Vec<Vec<char>> = Vec::new();
    let mut pos: usize = 0;
    loop
        invariant_except_break
            pos <= v.len(),
            pieces(v@, sep) == views(out@) + pieces_from(v@, sep, pos as int),
        ensures
            views(out@) == pieces(v@, sep),
        decreases v.len() - pos,
    {
        let i = find(v, sep, pos);
        let ghost before = views(out@);
        let piece = subvec(v, pos, i);
        out.push(piece);
        assert(views(out@) == before.push(piece@));
        if i >= v.len() {
            assert(before + seq![piece@] == views(out@));
            break;
        }
        assert(before + (seq![piece@] + pieces_from(v@, sep, i + 1)) == views(out@) + pieces_from(
            v@,
            sep,
            i + 1,
        ));
        pos = i + 1;
    }
    out
}

/// The items of a comma-separated list: what stands between the commas,
/// trimmed, empty items left out.
pub fn split_list(v: &Vec<char>) -> (out: Vec<Vec<char>>)
    ensures
        views(out@) == list_items(v@),
{
    let parts = split_on(v, ',');
    let mut out: Vec<Vec<char>> = Vec::new();
    let mut i: usize = 0;
    while i < parts.len()
        invariant
            i <= parts.len(),
            views(parts@) == pieces(v@, ','),
            views(out@) == nonempty_trimmed(views(parts@).take(i as int)),
        decreases parts.len() - i,
    {
        let t = trim(&parts[i]);
        let ghost before = views(out@);
        assert(views(parts@).take(i + 1).drop_last() == views(parts@).take(i as int));
        assert(views(parts@).take(i + 1).last() == parts@[i as int]@);
        if t.len() > 0 {
            out.push(t);
            assert(views(out@) == before.push(t@));
        }
        i += 1;
    }
    assert(views(parts@).take(parts.len() as int) == views(parts@));
    out
}

} // verus!
