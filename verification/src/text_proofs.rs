//! Facts about trimming, lines and joined lines.

use crate::text::{
    find_char, is_whitespace, join_lines, lemma_find_char, lemma_skip_ws, lemma_trim_end_at,
    lines, lines_from, skip_ws, strip_cr, trim_end_at, trimmed,
};
use vstd::prelude::*;

verus! {

/// No character of `l` is a line feed.
pub open spec fn has_no_line_feed(l: Seq<char>) -> bool {
    forall|i: int| 0 <= i < l.len() ==> #[trigger] l[i] != '\n'
}

/// No line of `ls` holds a line feed.
pub open spec fn are_lines(ls: Seq<Seq<char>>) -> bool {
    forall|i: int| 0 <= i < ls.len() ==> has_no_line_feed(#[trigger] ls[i])
}

/// Each line of `ls` without one carriage return at its end.
pub open spec fn strip_cr_all(ls: Seq<Seq<char>>) -> Seq<Seq<char>> {
    ls.map_values(|l: Seq<char>| strip_cr(l))
}

/// Whitespace up to `at` and none at `at`: that is where the skipping ends.
pub proof fn lemma_skip_ws_is(s: Seq<char>, from: int, at: int)
    requires
        0 <= from <= at <= s.len(),
        forall|i: int| from <= i < at ==> is_whitespace(#[trigger] s[i]),
        at == s.len() || !is_whitespace(s[at]),
    ensures
        skip_ws(s, from) == at,
    decreases at - from,
{
    if from < at {
        lemma_skip_ws_is(s, from + 1, at);
    }
}

/// Whitespace from `at` to `to` and none before `at`: that is where the
/// trimmed text ends.
pub proof fn lemma_trim_end_at_is(s: Seq<char>, to: int, at: int)
    requires
        0 <= at <= to <= s.len(),
        forall|i: int| at <= i < to ==> is_whitespace(#[trigger] s[i]),
        at == 0 || !is_whitespace(s[at - 1]),
    ensures
        trim_end_at(s, to) == at,
    decreases to - at,
{
    if at < to {
        lemma_trim_end_at_is(s, to - 1, at);
    }
}

/// No `c` up to `at` and one at `at`: that is where the search ends.
pub proof fn lemma_find_char_is(s: Seq<char>, c: char, from: int, at: int)
    requires
        0 <= from <= at <= s.len(),
        forall|i: int| from <= i < at ==> #[trigger] s[i] != c,
        at == s.len() || s[at] == c,
    ensures
        find_char(s, c, from) == at,
    decreases at - from,
{
    if from < at {
        lemma_find_char_is(s, c, from + 1, at);
    }
}

/// A text that neither begins nor ends with whitespace is its own trimmed
/// text.
pub proof fn lemma_trimmed_plain(s: Seq<char>)
    requires
        s.len() > 0,
        !is_whitespace(s[0]),
        !is_whitespace(s.last()),
    ensures
        trimmed(s) == s,
{
    assert(trimmed(s) =~= s);
}

/// Whitespace at the end does not change the trimmed text.
pub proof fn lemma_trimmed_push(s: Seq<char>, w: char)
    requires
        is_whitespace(w),
    ensures
        trimmed(s.push(w)) == trimmed(s),
{
    let t = s.push(w);
    let n = s.len() as int;
    let a = skip_ws(s, 0);
    let b = trim_end_at(s, n);
    lemma_skip_ws(s, 0);
    lemma_trim_end_at(s, n);
    assert(trim_end_at(t, n + 1) == trim_end_at(t, n));
    assert forall|i: int| b <= i < n implies is_whitespace(#[trigger] t[i]) by {
        assert(t[i] == s[i]);
    }
    if b > 0 {
        assert(t[b - 1] == s[b - 1]);
    }
    lemma_trim_end_at_is(t, n, b);
    if a < n {
        assert forall|i: int| 0 <= i < a implies is_whitespace(#[trigger] t[i]) by {
            assert(t[i] == s[i]);
        }
        assert(t[a] == s[a]);
        lemma_skip_ws_is(t, 0, a);
        assert(a < b) by {
            if b <= a {
                assert(is_whitespace(s[a]));
            }
        }
        assert(trimmed(t) =~= trimmed(s));
    } else {
        assert forall|i: int| 0 <= i < n + 1 implies is_whitespace(#[trigger] t[i]) by {
            if i < n {
                assert(t[i] == s[i]);
            }
        }
        lemma_skip_ws_is(t, 0, n + 1);
        if n > 0 {
            assert(b == 0) by {
                if b > 0 {
                    assert(is_whitespace(s[b - 1]));
                }
            }
        }
        assert(trimmed(t) =~= trimmed(s));
    }
}

proof fn lemma_find_char_shift(a: Seq<char>, b: Seq<char>, c: char, j: int)
    requires
        0 <= j <= b.len(),
    ensures
        find_char(a + b, c, a.len() + j) == a.len() + find_char(b, c, j),
    decreases b.len() - j,
{
    if j < b.len() {
        assert((a + b)[a.len() + j] == b[j]);
        if b[j] != c {
            lemma_find_char_shift(a, b, c, j + 1);
        }
    }
}

/// The lines that begin behind a text `a` are the lines of what follows `a`.
pub proof fn lemma_lines_from_shift(a: Seq<char>, b: Seq<char>, j: int)
    requires
        0 <= j <= b.len(),
    ensures
        lines_from(a + b, a.len() + j) == lines_from(b, j),
    decreases b.len() - j,
{
    let s = a + b;
    if j < b.len() {
        lemma_find_char_shift(a, b, '\n', j);
        lemma_find_char(b, '\n', j);
        let nl = find_char(b, '\n', j);
        if nl >= b.len() {
            assert(s.subrange(a.len() + j, s.len() as int) =~= b.subrange(j, b.len() as int));
        } else {
            assert(s.subrange(a.len() + j, a.len() + nl) =~= b.subrange(j, nl));
            lemma_lines_from_shift(a, b, nl + 1);
        }
    }
}

/// A line, a line feed and more text: the first line of that is the line,
/// and the other lines are those of the text behind it.
pub proof fn lemma_lines_cons(l: Seq<char>, rest: Seq<char>)
    requires
        has_no_line_feed(l),
    ensures
        lines(l + seq!['\n'] + rest) == seq![strip_cr(l)] + lines(rest),
{
    let head = l + seq!['\n'];
    let s = head + rest;
    let n = l.len() as int;
    assert forall|i: int| 0 <= i < n implies #[trigger] s[i] != '\n' by {
        assert(s[i] == l[i]);
    }
    assert(s[n] == '\n');
    lemma_find_char_is(s, '\n', 0, n);
    assert(s.subrange(0, n) =~= l);
    lemma_lines_from_shift(head, rest, 0);
}

/// The lines of a text hold no line feed.
pub proof fn lemma_lines_from_are_lines(s: Seq<char>, from: int)
    requires
        0 <= from <= s.len(),
    ensures
        are_lines(lines_from(s, from)),
    decreases s.len() - from,
{
    if from < s.len() {
        lemma_find_char(s, '\n', from);
        let nl = find_char(s, '\n', from);
        if nl < s.len() {
            lemma_lines_from_are_lines(s, nl + 1);
            let first = strip_cr(s.subrange(from, nl));
            let rest = lines_from(s, nl + 1);
            assert forall|i: int| 0 <= i < first.len() implies #[trigger] first[i] != '\n' by {
                assert(first[i] == s[from + i]);
            }
            assert forall|i: int| 0 <= i < (seq![first] + rest).len() implies has_no_line_feed(
                #[trigger] (seq![first] + rest)[i],
            ) by {
                if i > 0 {
                    assert((seq![first] + rest)[i] == rest[i - 1]);
                }
            }
        } else {
            let only = s.subrange(from, s.len() as int);
            assert forall|i: int| 0 <= i < only.len() implies #[trigger] only[i] != '\n' by {
                assert(only[i] == s[from + i]);
            }
        }
    }
}

/// The lines of a text hold no line feed.
pub proof fn lemma_lines_are_lines(s: Seq<char>)
    ensures
        are_lines(lines(s)),
{
    lemma_lines_from_are_lines(s, 0);
}

/// Joining two rows of lines joins what each of them joins to.
pub proof fn lemma_join_lines_add(x: Seq<Seq<char>>, y: Seq<Seq<char>>)
    ensures
        join_lines(x + y) == join_lines(x) + join_lines(y),
    decreases y.len(),
{
    if y.len() == 0 {
        assert(x + y =~= x);
        assert(join_lines(x) + join_lines(y) =~= join_lines(x));
    } else {
        lemma_join_lines_add(x, y.drop_last());
        assert((x + y).drop_last() =~= x + y.drop_last());
        assert((x + y).last() == y.last());
        assert(join_lines(x + y) =~= join_lines(x) + join_lines(y));
    }
}

/// One line joins to the line and a line feed.
pub proof fn lemma_join_lines_one(l: Seq<char>)
    ensures
        join_lines(seq![l]) == l + seq!['\n'],
{
    assert(seq![l].drop_last() =~= Seq::<Seq<char>>::empty());
    assert(seq![l].last() == l);
    assert(join_lines(Seq::<Seq<char>>::empty()) =~= Seq::<char>::empty());
    assert(join_lines(seq![l]) =~= l + seq!['\n']);
}

/// Reading the lines of joined lines gives the lines back, each without one
/// carriage return at its end.
pub proof fn lemma_lines_of_join(ls: Seq<Seq<char>>)
    requires
        are_lines(ls),
    ensures
        lines(join_lines(ls)) == strip_cr_all(ls),
    decreases ls.len(),
{
    if ls.len() == 0 {
        assert(lines(join_lines(ls)) =~= strip_cr_all(ls));
    } else {
        let first = ls[0];
        let rest = ls.drop_first();
        assert(ls =~= seq![first] + rest);
        lemma_join_lines_add(seq![first], rest);
        lemma_join_lines_one(first);
        assert(are_lines(rest)) by {
            assert forall|i: int| 0 <= i < rest.len() implies has_no_line_feed(
                #[trigger] rest[i],
            ) by {
                assert(rest[i] == ls[i + 1]);
            }
        }
        lemma_lines_of_join(rest);
        lemma_lines_cons(first, join_lines(rest));
        assert(join_lines(ls) == first + seq!['\n'] + join_lines(rest));
        assert(seq![strip_cr(first)] + strip_cr_all(rest) =~= strip_cr_all(ls));
    }
}

} // verus!
