//! Which keys an operation changes: key lists as the user writes them, and
//! the keys that take part under a list of forced or of excepted keys.

use crate::keys::{resolve_key, resolved_key, ColourKey};
use crate::text::{chars_of, list_items, split_list, string_of, string_views, subvec, views};
use vstd::prelude::*;

verus! {

/// The index of the first character at or after `from` that is not `c`.
pub open spec fn skip_run(s: Seq<char>, c: char, from: int) -> int
    decreases s.len() - from,
{
    if 0 <= from < s.len() && s[from] == c {
        skip_run(s, c, from + 1)
    } else {
        from
    }
}

/// The index at which the run of `c` that ends just before `to` begins.
pub open spec fn run_start(s: Seq<char>, c: char, to: int) -> int
    decreases to,
{
    if 0 < to <= s.len() && s[to - 1] == c {
        run_start(s, c, to - 1)
    } else {
        to
    }
}

/// `s` without the opening brackets at its start and the closing brackets at
/// its end.
pub open spec fn unwrapped(s: Seq<char>) -> Seq<char> {
    let a = skip_run(s, '(', 0);
    let b = run_start(s, ')', s.len() as int);
    if a <= b {
        s.subrange(a, b)
    } else {
        Seq::empty()
    }
}

/// The items of a key list: the list without brackets around it, cut at the
/// commas, each item trimmed, empty items left out. No list has no items.
pub open spec fn key_list_items(input: Option<Seq<char>>) -> Seq<Seq<char>> {
    match input {
        Some(s) => list_items(unwrapped(s)),
        None => Seq::empty(),
    }
}

/// The keys that the items stand for, in the order of the items; an item that
/// stands for no key is passed over.
pub open spec fn listed_keys(items: Seq<Seq<char>>) -> Seq<ColourKey>
    decreases items.len(),
{
    if items.len() == 0 {
        Seq::empty()
    } else {
        let rest = listed_keys(items.drop_last());
        match resolved_key(items.last()) {
            Some(k) => rest.push(k),
            None => rest,
        }
    }
}

/// The items that stand for no key, in their order.
pub open spec fn unknown_items(items: Seq<Seq<char>>) -> Seq<Seq<char>>
    decreases items.len(),
{
    if items.len() == 0 {
        Seq::empty()
    } else {
        let rest = unknown_items(items.drop_last());
        match resolved_key(items.last()) {
            Some(_) => rest,
            None => rest.push(items.last()),
        }
    }
}

/// The view of a key list that may be absent.
pub open spec fn input_view(input: Option<String>) -> Option<Seq<char>> {
    match input {
        Some(s) => Some(s@),
        None => None,
    }
}

/// Whether the key `k` takes part in an operation: with forced keys, the
/// forced keys take part and no others, whatever is excepted; without them,
/// every key that is not excepted.
pub open spec fn takes_part(k: ColourKey, forced: Seq<ColourKey>, excepted: Seq<ColourKey>) -> bool {
    if forced.len() > 0 {
        forced.contains(k)
    } else {
        !excepted.contains(k)
    }
}

/// The keys of a key list, and the items of the list that stand for no key.
#[derive(Clone, Debug, PartialEq, Eq)]
pub struct KeyList {
    /// The keys, in the order of the list.
    pub keys: Vec<ColourKey>,
    /// The items that are neither an alias nor a name of a key.
    pub unknown: Vec<String>,
}

/// `v` without the opening brackets at its start and the closing brackets at
/// its end.
pub fn unwrap_list(v: &Vec<char>) -> (out: Vec<char>)
    ensures
        out@ == unwrapped(v@),
{
    let mut a: usize = 0;
    while a < v.len() && v[a] == '('
        invariant
            a <= v.len(),
            skip_run(v@, '(', 0) == skip_run(v@, '(', a as int),
        decreases v.len() - a,
    {
        a += 1;
    }
    let mut b: usize = v.len();
    while b > 0 && v[b - 1] == ')'
        invariant
            b <= v.len(),
            run_start(v@, ')', v.len() as int) == run_start(v@, ')', b as int),
        decreases b,
    {
        b -= 1;
    }
    if a <= b {
        subvec(v, a, b)
    } else {
        Vec::new()
    }
}

/// The keys of a key list such as `bg` or `(fg, c0, color7)`: each item is the
/// alias or the name of a key. The items that are neither are handed back
/// beside the keys.
pub fn parse_color_keys_input(input: &Option<String>) -> (list: KeyList)
    ensures
        list.keys@ == listed_keys(key_list_items(input_view(*input))),
        string_views(list.unknown@) == unknown_items(key_list_items(input_view(*input))),
{
    let mut keys: Vec<ColourKey> = Vec::new();
    let mut unknown: Vec<String> = Vec::new();
    match input {
        Some(s) => {
            let items = split_list(&unwrap_list(&chars_of(s.as_str())));
            let mut i: usize = 0;
            assert(views(items@).take(0) =~= Seq::<Seq<char>>::empty());
            assert(string_views(unknown@) =~= Seq::<Seq<char>>::empty());
            while i < items.len()
                invariant
                    i <= items.len(),
                    keys@ == listed_keys(views(items@).take(i as int)),
                    string_views(unknown@) == unknown_items(views(items@).take(i as int)),
                decreases items.len() - i,
            {
                assert(views(items@).take(i + 1).drop_last() == views(items@).take(i as int));
                assert(views(items@).take(i + 1).last() == items@[i as int]@);
                let ghost before = string_views(unknown@);
                match resolve_key(&items[i]) {
                    Some(k) => {
                        keys.push(k);
                    },
                    None => {
                        let word = string_of(&items[i]);
                        unknown.push(word);
                        assert(string_views(unknown@) == before.push(word@));
                    },
                }
                i += 1;
            }
            assert(views(items@).take(items.len() as int) == views(items@));
        },
        None => {
            assert(string_views(unknown@) =~= Seq::<Seq<char>>::empty());
        },
    }
    KeyList { keys, unknown }
}

/// Whether `k` is among `keys`.
pub fn key_in(keys: &Vec<ColourKey>, k: ColourKey) -> (b: bool)
    ensures
        b == keys@.contains(k),
{
    let mut i: usize = 0;
    while i < keys.len()
        invariant
            i <= keys.len(),
            forall|j: int| 0 <= j < i ==> keys@[j] != k,
        decreases keys.len() - i,
    {
        if keys[i] == k {
            return true;
        }
        i += 1;
    }
    false
}

/// Whether the key `k` takes part under the forced and the excepted keys.
pub fn key_takes_part(k: ColourKey, forced: &Vec<ColourKey>, excepted: &Vec<ColourKey>) -> (b: bool)
    ensures
        b == takes_part(k, forced@, excepted@),
{
    if forced.len() > 0 {
        key_in(forced, k)
    } else {
        !key_in(excepted, k)
    }
}

} // verus!
