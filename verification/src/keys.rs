//! The nineteen colour keys of the configuration file, their names and their
//! short aliases.

use crate::text::{chars_of, same_chars};
use vstd::prelude::*;

verus! {

/// One of the nineteen colour settings, in the order in which a palette is
/// listed and a backup is written.
#[derive(Clone, Copy, PartialEq, Eq, Structural, Debug, Hash)]
pub enum ColourKey {
    Foreground,
    Background,
    Cursor,
    Color0,
    Color1,
    Color2,
    Color3,
    Color4,
    Color5,
    Color6,
    Color7,
    Color8,
    Color9,
    Color10,
    Color11,
    Color12,
    Color13,
    Color14,
    Color15,
}

/// The number of colour keys.
pub const KEY_COUNT: usize = 19;

/// The place of a key in the fixed order, from 0.
pub open spec fn key_index(k: ColourKey) -> int {
    match k {
        ColourKey::Foreground => 0,
        ColourKey::Background => 1,
        ColourKey::Cursor => 2,
        ColourKey::Color0 => 3,
        ColourKey::Color1 => 4,
        ColourKey::Color2 => 5,
        ColourKey::Color3 => 6,
        ColourKey::Color4 => 7,
        ColourKey::Color5 => 8,
        ColourKey::Color6 => 9,
        ColourKey::Color7 => 10,
        ColourKey::Color8 => 11,
        ColourKey::Color9 => 12,
        ColourKey::Color10 => 13,
        ColourKey::Color11 => 14,
        ColourKey::Color12 => 15,
        ColourKey::Color13 => 16,
        ColourKey::Color14 => 17,
        ColourKey::Color15 => 18,
    }
}

/// The key at place `i` of the fixed order.
pub open spec fn key_at(i: int) -> ColourKey {
    if i == 0 {
        ColourKey::Foreground
    } else if i == 1 {
        ColourKey::Background
    } else if i == 2 {
        ColourKey::Cursor
    } else if i == 3 {
        ColourKey::Color0
    } else if i == 4 {
        ColourKey::Color1
    } else if i == 5 {
        ColourKey::Color2
    } else if i == 6 {
        ColourKey::Color3
    } else if i == 7 {
        ColourKey::Color4
    } else if i == 8 {
        ColourKey::Color5
    } else if i == 9 {
        ColourKey::Color6
    } else if i == 10 {
        ColourKey::Color7
    } else if i == 11 {
        ColourKey::Color8
    } else if i == 12 {
        ColourKey::Color9
    } else if i == 13 {
        ColourKey::Color10
    } else if i == 14 {
        ColourKey::Color11
    } else if i == 15 {
        ColourKey::Color12
    } else if i == 16 {
        ColourKey::Color13
    } else if i == 17 {
        ColourKey::Color14
    } else {
        ColourKey::Color15
    }
}

/// The keys in their fixed order.
pub open spec fn all_keys() -> Seq<ColourKey> {
    Seq::new(19, |i: int| key_at(i))
}

/// The name under which a key stands in the configuration file.
pub open spec fn key_name(k: ColourKey) -> Seq<char> {
    match k {
        ColourKey::Foreground => seq!['f', 'o', 'r', 'e', 'g', 'r', 'o', 'u', 'n', 'd'],
        ColourKey::Background => seq!['b', 'a', 'c', 'k', 'g', 'r', 'o', 'u', 'n', 'd'],
        ColourKey::Cursor => seq!['c', 'u', 'r', 's', 'o', 'r'],
        ColourKey::Color0 => seq!['c', 'o', 'l', 'o', 'r', '0'],
        ColourKey::Color1 => seq!['c', 'o', 'l', 'o', 'r', '1'],
        ColourKey::Color2 => seq!['c', 'o', 'l', 'o', 'r', '2'],
        ColourKey::Color3 => seq!['c', 'o', 'l', 'o', 'r', '3'],
        ColourKey::Color4 => seq!['c', 'o', 'l', 'o', 'r', '4'],
        ColourKey::Color5 => seq!['c', 'o', 'l', 'o', 'r', '5'],
        ColourKey::Color6 => seq!['c', 'o', 'l', 'o', 'r', '6'],
        ColourKey::Color7 => seq!['c', 'o', 'l', 'o', 'r', '7'],
        ColourKey::Color8 => seq!['c', 'o', 'l', 'o', 'r', '8'],
        ColourKey::Color9 => seq!['c', 'o', 'l', 'o', 'r', '9'],
        ColourKey::Color10 => seq!['c', 'o', 'l', 'o', 'r', '1', '0'],
        ColourKey::Color11 => seq!['c', 'o', 'l', 'o', 'r', '1', '1'],
        ColourKey::Color12 => seq!['c', 'o', 'l', 'o', 'r', '1', '2'],
        ColourKey::Color13 => seq!['c', 'o', 'l', 'o', 'r', '1', '3'],
        ColourKey::Color14 => seq!['c', 'o', 'l', 'o', 'r', '1', '4'],
        ColourKey::Color15 => seq!['c', 'o', 'l', 'o', 'r', '1', '5'],
    }
}

/// The short name that a key list may use for a key.
pub open spec fn key_alias(k: ColourKey) -> Seq<char> {
    match k {
        ColourKey::Foreground => seq!['f', 'g'],
        ColourKey::Background => seq!['b', 'g'],
        ColourKey::Cursor => seq!['c', 's'],
        ColourKey::Color0 => seq!['c', '0'],
        ColourKey::Color1 => seq!['c', '1'],
        ColourKey::Color2 => seq!['c', '2'],
        ColourKey::Color3 => seq!['c', '3'],
        ColourKey::Color4 => seq!['c', '4'],
        ColourKey::Color5 => seq!['c', '5'],
        ColourKey::Color6 => seq!['c', '6'],
        ColourKey::Color7 => seq!['c', '7'],
        ColourKey::Color8 => seq!['c', '8'],
        ColourKey::Color9 => seq!['c', '9'],
        ColourKey::Color10 => seq!['c', '1', '0'],
        ColourKey::Color11 => seq!['c', '1', '1'],
        ColourKey::Color12 => seq!['c', '1', '2'],
        ColourKey::Color13 => seq!['c', '1', '3'],
        ColourKey::Color14 => seq!['c', '1', '4'],
        ColourKey::Color15 => seq!['c', '1', '5'],
    }
}

/// A character that a key's name or alias is made of: a lower-case letter or
/// a digit.
pub open spec fn is_key_char(c: char) -> bool {
    ('a' <= c <= 'z') || ('0' <= c <= '9')
}

/// The first key from place `i` on whose name is `s`.
pub open spec fn key_named_from(s: Seq<char>, i: int) -> Option<ColourKey>
    decreases 19 - i,
{
    if i < 0 || i >= 19 {
        None
    } else if key_name(key_at(i)) == s {
        Some(key_at(i))
    } else {
        key_named_from(s, i + 1)
    }
}

/// The key whose name is `s`.
pub open spec fn key_named(s: Seq<char>) -> Option<ColourKey> {
    key_named_from(s, 0)
}

/// The first key from place `i` on whose alias is `s`.
pub open spec fn key_aliased_from(s: Seq<char>, i: int) -> Option<ColourKey>
    decreases 19 - i,
{
    if i < 0 || i >= 19 {
        None
    } else if key_alias(key_at(i)) == s {
        Some(key_at(i))
    } else {
        key_aliased_from(s, i + 1)
    }
}

/// The key whose alias is `s`.
pub open spec fn key_aliased(s: Seq<char>) -> Option<ColourKey> {
    key_aliased_from(s, 0)
}

/// The key that `s` stands for in a key list: the key with that alias, else
/// the key with that name.
pub open spec fn resolved_key(s: Seq<char>) -> Option<ColourKey> {
    match key_aliased(s) {
        Some(k) => Some(k),
        None => key_named(s),
    }
}

/// The keys among the first `n` of the fixed order that `wanted` holds of, in
/// that order.
pub open spec fn keys_where(wanted: spec_fn(ColourKey) -> bool, n: int) -> Seq<ColourKey>
    decreases n,
{
    if n <= 0 {
        Seq::empty()
    } else if wanted(key_at(n - 1)) {
        keys_where(wanted, n - 1).push(key_at(n - 1))
    } else {
        keys_where(wanted, n - 1)
    }
}

/// Place and key determine each other.
pub proof fn lemma_key_index(k: ColourKey)
    ensures
        0 <= key_index(k) < 19,
        key_at(key_index(k)) == k,
        all_keys()[key_index(k)] == k,
{
}

/// Each place from 0 to 18 holds a key of its own.
pub proof fn lemma_key_at(i: int)
    requires
        0 <= i < 19,
    ensures
        key_index(key_at(i)) == i,
{
}

/// A name has six to ten characters, all of them letters or digits.
pub proof fn lemma_key_name_chars(k: ColourKey)
    ensures
        6 <= key_name(k).len() <= 10,
        forall|i: int| 0 <= i < key_name(k).len() ==> is_key_char(#[trigger] key_name(k)[i]),
{
    match k {
        ColourKey::Foreground => {
            assert(key_name(k).len() == 10);
        },
        ColourKey::Background => {
            assert(key_name(k).len() == 10);
        },
        ColourKey::Cursor => {
            assert(key_name(k).len() == 6);
        },
        ColourKey::Color0 => {
            assert(key_name(k).len() == 6);
        },
        ColourKey::Color1 => {
            assert(key_name(k).len() == 6);
        },
        ColourKey::Color2 => {
            assert(key_name(k).len() == 6);
        },
        ColourKey::Color3 => {
            assert(key_name(k).len() == 6);
        },
        ColourKey::Color4 => {
            assert(key_name(k).len() == 6);
        },
        ColourKey::Color5 => {
            assert(key_name(k).len() == 6);
        },
        ColourKey::Color6 => {
            assert(key_name(k).len() == 6);
        },
        ColourKey::Color7 => {
            assert(key_name(k).len() == 6);
        },
        ColourKey::Color8 => {
            assert(key_name(k).len() == 6);
        },
        ColourKey::Color9 => {
            assert(key_name(k).len() == 6);
        },
        ColourKey::Color10 => {
            assert(key_name(k).len() == 7);
        },
        ColourKey::Color11 => {
            assert(key_name(k).len() == 7);
        },
        ColourKey::Color12 => {
            assert(key_name(k).len() == 7);
        },
        ColourKey::Color13 => {
            assert(key_name(k).len() == 7);
        },
        ColourKey::Color14 => {
            assert(key_name(k).len() == 7);
        },
        ColourKey::Color15 => {
            assert(key_name(k).len() == 7);
        },
    }
}

/// An alias has two or three characters, all of them letters or digits.
pub proof fn lemma_key_alias_chars(k: ColourKey)
    ensures
        2 <= key_alias(k).len() <= 3,
        forall|i: int| 0 <= i < key_alias(k).len() ==> is_key_char(#[trigger] key_alias(k)[i]),
{
    match k {
        ColourKey::Foreground => {
            assert(key_alias(k).len() == 2);
        },
        ColourKey::Background => {
            assert(key_alias(k).len() == 2);
        },
        ColourKey::Cursor => {
            assert(key_alias(k).len() == 2);
        },
        ColourKey::Color0 => {
            assert(key_alias(k).len() == 2);
        },
        ColourKey::Color1 => {
            assert(key_alias(k).len() == 2);
        },
        ColourKey::Color2 => {
            assert(key_alias(k).len() == 2);
        },
        ColourKey::Color3 => {
            assert(key_alias(k).len() == 2);
        },
        ColourKey::Color4 => {
            assert(key_alias(k).len() == 2);
        },
        ColourKey::Color5 => {
            assert(key_alias(k).len() == 2);
        },
        ColourKey::Color6 => {
            assert(key_alias(k).len() == 2);
        },
        ColourKey::Color7 => {
            assert(key_alias(k).len() == 2);
        },
        ColourKey::Color8 => {
            assert(key_alias(k).len() == 2);
        },
        ColourKey::Color9 => {
            assert(key_alias(k).len() == 2);
        },
        ColourKey::Color10 => {
            assert(key_alias(k).len() == 3);
        },
        ColourKey::Color11 => {
            assert(key_alias(k).len() == 3);
        },
        ColourKey::Color12 => {
            assert(key_alias(k).len() == 3);
        },
        ColourKey::Color13 => {
            assert(key_alias(k).len() == 3);
        },
        ColourKey::Color14 => {
            assert(key_alias(k).len() == 3);
        },
        ColourKey::Color15 => {
            assert(key_alias(k).len() == 3);
        },
    }
}

/// The key that a name of six to ten characters belongs to, read off its
/// length and three of its characters.
spec fn key_of_name_shape(s: Seq<char>) -> ColourKey {
    if s[0] == 'f' {
        ColourKey::Foreground
    } else if s[0] == 'b' {
        ColourKey::Background
    } else if s[1] == 'u' {
        ColourKey::Cursor
    } else if s.len() == 6 {
        key_at(3 + (s[5] as int - '0' as int))
    } else {
        key_at(13 + (s[6] as int - '0' as int))
    }
}

/// The key that an alias belongs to, read off its length and its characters.
spec fn key_of_alias_shape(s: Seq<char>) -> ColourKey {
    if s[0] == 'f' {
        ColourKey::Foreground
    } else if s[0] == 'b' {
        ColourKey::Background
    } else if s[1] == 's' {
        ColourKey::Cursor
    } else if s.len() == 2 {
        key_at(3 + (s[1] as int - '0' as int))
    } else {
        key_at(13 + (s[2] as int - '0' as int))
    }
}

proof fn lemma_key_of_name_shape(k: ColourKey)
    ensures
        key_of_name_shape(key_name(k)) == k,
{
    match k {
        ColourKey::Foreground => {
            assert(key_name(k).len() == 10);
        },
        ColourKey::Background => {
            assert(key_name(k).len() == 10);
        },
        ColourKey::Cursor => {
            assert(key_name(k).len() == 6);
        },
        ColourKey::Color0 => {
            assert(key_name(k).len() == 6);
        },
        ColourKey::Color1 => {
            assert(key_name(k).len() == 6);
        },
        ColourKey::Color2 => {
            assert(key_name(k).len() == 6);
        },
        ColourKey::Color3 => {
            assert(key_name(k).len() == 6);
        },
        ColourKey::Color4 => {
            assert(key_name(k).len() == 6);
        },
        ColourKey::Color5 => {
            assert(key_name(k).len() == 6);
        },
        ColourKey::Color6 => {
            assert(key_name(k).len() == 6);
        },
        ColourKey::Color7 => {
            assert(key_name(k).len() == 6);
        },
        ColourKey::Color8 => {
            assert(key_name(k).len() == 6);
        },
        ColourKey::Color9 => {
            assert(key_name(k).len() == 6);
        },
        ColourKey::Color10 => {
            assert(key_name(k).len() == 7);
        },
        ColourKey::Color11 => {
            assert(key_name(k).len() == 7);
        },
        ColourKey::Color12 => {
            assert(key_name(k).len() == 7);
        },
        ColourKey::Color13 => {
            assert(key_name(k).len() == 7);
        },
        ColourKey::Color14 => {
            assert(key_name(k).len() == 7);
        },
        ColourKey::Color15 => {
            assert(key_name(k).len() == 7);
        },
    }
}

proof fn lemma_key_of_alias_shape(k: ColourKey)
    ensures
        key_of_alias_shape(key_alias(k)) == k,
{
    match k {
        ColourKey::Foreground => {
            assert(key_alias(k).len() == 2);
        },
        ColourKey::Background => {
            assert(key_alias(k).len() == 2);
        },
        ColourKey::Cursor => {
            assert(key_alias(k).len() == 2);
        },
        ColourKey::Color0 => {
            assert(key_alias(k).len() == 2);
        },
        ColourKey::Color1 => {
            assert(key_alias(k).len() == 2);
        },
        ColourKey::Color2 => {
            assert(key_alias(k).len() == 2);
        },
        ColourKey::Color3 => {
            assert(key_alias(k).len() == 2);
        },
        ColourKey::Color4 => {
            assert(key_alias(k).len() == 2);
        },
        ColourKey::Color5 => {
            assert(key_alias(k).len() == 2);
        },
        ColourKey::Color6 => {
            assert(key_alias(k).len() == 2);
        },
        ColourKey::Color7 => {
            assert(key_alias(k).len() == 2);
        },
        ColourKey::Color8 => {
            assert(key_alias(k).len() == 2);
        },
        ColourKey::Color9 => {
            assert(key_alias(k).len() == 2);
        },
        ColourKey::Color10 => {
            assert(key_alias(k).len() == 3);
        },
        ColourKey::Color11 => {
            assert(key_alias(k).len() == 3);
        },
        ColourKey::Color12 => {
            assert(key_alias(k).len() == 3);
        },
        ColourKey::Color13 => {
            assert(key_alias(k).len() == 3);
        },
        ColourKey::Color14 => {
            assert(key_alias(k).len() == 3);
        },
        ColourKey::Color15 => {
            assert(key_alias(k).len() == 3);
        },
    }
}

/// No two keys share a name.
pub proof fn lemma_key_names_distinct(a: ColourKey, b: ColourKey)
    requires
        key_name(a) == key_name(b),
    ensures
        a == b,
{
    lemma_key_of_name_shape(a);
    lemma_key_of_name_shape(b);
}

/// No two keys share an alias.
pub proof fn lemma_key_aliases_distinct(a: ColourKey, b: ColourKey)
    requires
        key_alias(a) == key_alias(b),
    ensures
        a == b,
{
    lemma_key_of_alias_shape(a);
    lemma_key_of_alias_shape(b);
}

/// No alias is a name: an alias is shorter than any name.
pub proof fn lemma_alias_is_no_name(a: ColourKey, b: ColourKey)
    ensures
        key_alias(a) != key_name(b),
{
    lemma_key_alias_chars(a);
    lemma_key_name_chars(b);
}

proof fn lemma_key_named_from(s: Seq<char>, i: int)
    requires
        0 <= i <= 19,
    ensures
        key_named_from(s, i) matches Some(k) ==> key_name(k) == s && i <= key_index(k),
        key_named_from(s, i) is None ==> forall|k: ColourKey|
            i <= key_index(k) ==> #[trigger] key_name(k) != s,
    decreases 19 - i,
{
    if i < 19 {
        lemma_key_at(i);
        if key_name(key_at(i)) != s {
            lemma_key_named_from(s, i + 1);
            if key_named_from(s, i) is None {
                assert forall|k: ColourKey| i <= key_index(k) implies #[trigger] key_name(k)
                    != s by {
                    lemma_key_index(k);
                }
            }
        }
    } else {
        assert forall|k: ColourKey| i <= key_index(k) implies #[trigger] key_name(k) != s by {
            lemma_key_index(k);
        }
    }
}

proof fn lemma_key_aliased_from(s: Seq<char>, i: int)
    requires
        0 <= i <= 19,
    ensures
        key_aliased_from(s, i) matches Some(k) ==> key_alias(k) == s && i <= key_index(k),
        key_aliased_from(s, i) is None ==> forall|k: ColourKey|
            i <= key_index(k) ==> #[trigger] key_alias(k) != s,
    decreases 19 - i,
{
    if i < 19 {
        lemma_key_at(i);
        if key_alias(key_at(i)) != s {
            lemma_key_aliased_from(s, i + 1);
            if key_aliased_from(s, i) is None {
                assert forall|k: ColourKey| i <= key_index(k) implies #[trigger] key_alias(k)
                    != s by {
                    lemma_key_index(k);
                }
            }
        }
    } else {
        assert forall|k: ColourKey| i <= key_index(k) implies #[trigger] key_alias(k) != s by {
            lemma_key_index(k);
        }
    }
}

/// `key_named(s)` is the one key whose name is `s`, where there is one.
pub proof fn lemma_key_named(s: Seq<char>)
    ensures
        forall|k: ColourKey| key_named(s) == Some(k) <==> #[trigger] key_name(k) == s,
{
    lemma_key_named_from(s, 0);
    assert forall|k: ColourKey| key_named(s) == Some(k) <==> #[trigger] key_name(k) == s by {
        lemma_key_index(k);
        if key_name(k) == s {
            let found = key_named(s)->0;
            lemma_key_names_distinct(found, k);
        }
    }
}

/// `key_aliased(s)` is the one key whose alias is `s`, where there is one.
pub proof fn lemma_key_aliased(s: Seq<char>)
    ensures
        forall|k: ColourKey| key_aliased(s) == Some(k) <==> #[trigger] key_alias(k) == s,
{
    lemma_key_aliased_from(s, 0);
    assert forall|k: ColourKey| key_aliased(s) == Some(k) <==> #[trigger] key_alias(k) == s by {
        lemma_key_index(k);
        if key_alias(k) == s {
            let found = key_aliased(s)->0;
            lemma_key_aliases_distinct(found, k);
        }
    }
}

/// `resolved_key(s)` is the one key that has `s` as its alias or its name.
pub proof fn lemma_resolved_key(s: Seq<char>)
    ensures
        forall|k: ColourKey|
            resolved_key(s) == Some(k) <==> (#[trigger] key_alias(k) == s || #[trigger] key_name(
                k,
            ) == s),
{
    lemma_key_named(s);
    lemma_key_aliased(s);
    assert forall|k: ColourKey|
        resolved_key(s) == Some(k) <==> (#[trigger] key_alias(k) == s || #[trigger] key_name(k)
            == s) by {
        if key_aliased(s) is Some {
            lemma_alias_is_no_name(key_aliased(s)->0, k);
        }
    }
}

/// `keys_where(wanted, n)` holds, once each and in rising order, the keys
/// below place `n` that `wanted` holds of; a key stands in it behind as many
/// keys as there are such keys below its own place.
pub proof fn lemma_keys_where(wanted: spec_fn(ColourKey) -> bool, n: int)
    requires
        0 <= n <= 19,
    ensures
        keys_where(wanted, n).len() <= n,
        forall|i: int|
            0 <= i < keys_where(wanted, n).len() ==> wanted(#[trigger] keys_where(wanted, n)[i])
                && key_index(keys_where(wanted, n)[i]) < n,
        forall|i: int|
            0 <= i < keys_where(wanted, n).len() ==> keys_where(
                wanted,
                key_index(#[trigger] keys_where(wanted, n)[i]),
            ).len() == i,
        forall|k: ColourKey|
            wanted(k) && key_index(k) < n ==> {
                let rank = #[trigger] keys_where(wanted, key_index(k)).len();
                rank < keys_where(wanted, n).len() && keys_where(wanted, n)[rank as int] == k
            },
    decreases n,
{
    if n > 0 {
        lemma_keys_where(wanted, n - 1);
        lemma_key_at(n - 1);
        let prev = keys_where(wanted, n - 1);
        let cur = keys_where(wanted, n);
        let last = key_at(n - 1);
        assert forall|k: ColourKey| wanted(k) && key_index(k) < n implies {
            let rank = #[trigger] keys_where(wanted, key_index(k)).len();
            rank < cur.len() && cur[rank as int] == k
        } by {
            lemma_key_index(k);
            if key_index(k) == n - 1 {
                assert(k == last);
            }
        }
    }
}

impl ColourKey {
    /// The place of the key in the fixed order, from 0.
    pub fn index(self) -> (i: usize)
        ensures
            i == key_index(self),
            i < 19,
    {
        match self {
            ColourKey::Foreground => 0,
            ColourKey::Background => 1,
            ColourKey::Cursor => 2,
            ColourKey::Color0 => 3,
            ColourKey::Color1 => 4,
            ColourKey::Color2 => 5,
            ColourKey::Color3 => 6,
            ColourKey::Color4 => 7,
            ColourKey::Color5 => 8,
            ColourKey::Color6 => 9,
            ColourKey::Color7 => 10,
            ColourKey::Color8 => 11,
            ColourKey::Color9 => 12,
            ColourKey::Color10 => 13,
            ColourKey::Color11 => 14,
            ColourKey::Color12 => 15,
            ColourKey::Color13 => 16,
            ColourKey::Color14 => 17,
            ColourKey::Color15 => 18,
        }
    }

    /// The key at place `i` of the fixed order, for `i` below 19.
    pub fn from_index(i: usize) -> (k: Option<ColourKey>)
        ensures
            i < 19 ==> k == Some(key_at(i as int)),
            i >= 19 ==> k is None,
    {
        match i {
            0 => Some(ColourKey::Foreground),
            1 => Some(ColourKey::Background),
            2 => Some(ColourKey::Cursor),
            3 => Some(ColourKey::Color0),
            4 => Some(ColourKey::Color1),
            5 => Some(ColourKey::Color2),
            6 => Some(ColourKey::Color3),
            7 => Some(ColourKey::Color4),
            8 => Some(ColourKey::Color5),
            9 => Some(ColourKey::Color6),
            10 => Some(ColourKey::Color7),
            11 => Some(ColourKey::Color8),
            12 => Some(ColourKey::Color9),
            13 => Some(ColourKey::Color10),
            14 => Some(ColourKey::Color11),
            15 => Some(ColourKey::Color12),
            16 => Some(ColourKey::Color13),
            17 => Some(ColourKey::Color14),
            18 => Some(ColourKey::Color15),
            _ => None,
        }
    }

    /// The keys in their fixed order.
    pub fn all() -> (keys: Vec<ColourKey>)
        ensures
            keys@ == all_keys(),
    {
        let mut keys: Vec<ColourKey> = Vec::new();
        let mut i: usize = 0;
        while i < KEY_COUNT
            invariant
                i <= 19,
                keys@ == all_keys().take(i as int),
            decreases 19 - i,
        {
            keys.push(key_of_index(i));
            i += 1;
        }
        keys
    }

    /// The name under which the key stands in the configuration file.
    pub fn name(self) -> (s: &'static str)
        ensures
            s@ == key_name(self),
    {
        match self {
            ColourKey::Foreground => {
                proof {
                    reveal_strlit("foreground");
                }
                let s = "foreground";
                assert(s@ =~= key_name(self));
                s
            },
            ColourKey::Background => {
                proof {
                    reveal_strlit("background");
                }
                let s = "background";
                assert(s@ =~= key_name(self));
                s
            },
            ColourKey::Cursor => {
                proof {
                    reveal_strlit("cursor");
                }
                let s = "cursor";
                assert(s@ =~= key_name(self));
                s
            },
            ColourKey::Color0 => {
                proof {
                    reveal_strlit("color0");
                }
                let s = "color0";
                assert(s@ =~= key_name(self));
                s
            },
            ColourKey::Color1 => {
                proof {
                    reveal_strlit("color1");
                }
                let s = "color1";
                assert(s@ =~= key_name(self));
                s
            },
            ColourKey::Color2 => {
                proof {
                    reveal_strlit("color2");
                }
                let s = "color2";
                assert(s@ =~= key_name(self));
                s
            },
            ColourKey::Color3 => {
                proof {
                    reveal_strlit("color3");
                }
                let s = "color3";
                assert(s@ =~= key_name(self));
                s
            },
            ColourKey::Color4 => {
                proof {
                    reveal_strlit("color4");
                }
                let s = "color4";
                assert(s@ =~= key_name(self));
                s
            },
            ColourKey::Color5 => {
                proof {
                    reveal_strlit("color5");
                }
                let s = "color5";
                assert(s@ =~= key_name(self));
                s
            },
            ColourKey::Color6 => {
                proof {
                    reveal_strlit("color6");
                }
                let s = "color6";
                assert(s@ =~= key_name(self));
                s
            },
            ColourKey::Color7 => {
                proof {
                    reveal_strlit("color7");
                }
                let s = "color7";
                assert(s@ =~= key_name(self));
                s
            },
            ColourKey::Color8 => {
                proof {
                    reveal_strlit("color8");
                }
                let s = "color8";
                assert(s@ =~= key_name(self));
                s
            },
            ColourKey::Color9 => {
                proof {
                    reveal_strlit("color9");
                }
                let s = "color9";
                assert(s@ =~= key_name(self));
                s
            },
            ColourKey::Color10 => {
                proof {
                    reveal_strlit("color10");
                }
                let s = "color10";
                assert(s@ =~= key_name(self));
                s
            },
            ColourKey::Color11 => {
                proof {
                    reveal_strlit("color11");
                }
                let s = "color11";
                assert(s@ =~= key_name(self));
                s
            },
            ColourKey::Color12 => {
                proof {
                    reveal_strlit("color12");
                }
                let s = "color12";
                assert(s@ =~= key_name(self));
                s
            },
            ColourKey::Color13 => {
                proof {
                    reveal_strlit("color13");
                }
                let s = "color13";
                assert(s@ =~= key_name(self));
                s
            },
            ColourKey::Color14 => {
                proof {
                    reveal_strlit("color14");
                }
                let s = "color14";
                assert(s@ =~= key_name(self));
                s
            },
            ColourKey::Color15 => {
                proof {
                    reveal_strlit("color15");
                }
                let s = "color15";
                assert(s@ =~= key_name(self));
                s
            },
        }
    }

    /// The short name that a key list may use for the key.
    pub fn alias(self) -> (s: &'static str)
        ensures
            s@ == key_alias(self),
    {
        match self {
            ColourKey::Foreground => {
                proof {
                    reveal_strlit("fg");
                }
                let s = "fg";
                assert(s@ =~= key_alias(self));
                s
            },
            ColourKey::Background => {
                proof {
                    reveal_strlit("bg");
                }
                let s = "bg";
                assert(s@ =~= key_alias(self));
                s
            },
            ColourKey::Cursor => {
                proof {
                    reveal_strlit("cs");
                }
                let s = "cs";
                assert(s@ =~= key_alias(self));
                s
            },
            ColourKey::Color0 => {
                proof {
                    reveal_strlit("c0");
                }
                let s = "c0";
                assert(s@ =~= key_alias(self));
                s
            },
            ColourKey::Color1 => {
                proof {
                    reveal_strlit("c1");
                }
                let s = "c1";
                assert(s@ =~= key_alias(self));
                s
            },
            ColourKey::Color2 => {
                proof {
                    reveal_strlit("c2");
                }
                let s = "c2";
                assert(s@ =~= key_alias(self));
                s
            },
            ColourKey::Color3 => {
                proof {
                    reveal_strlit("c3");
                }
                let s = "c3";
                assert(s@ =~= key_alias(self));
                s
            },
            ColourKey::Color4 => {
                proof {
                    reveal_strlit("c4");
                }
                let s = "c4";
                assert(s@ =~= key_alias(self));
                s
            },
            ColourKey::Color5 => {
                proof {
                    reveal_strlit("c5");
                }
                let s = "c5";
                assert(s@ =~= key_alias(self));
                s
            },
            ColourKey::Color6 => {
                proof {
                    reveal_strlit("c6");
                }
                let s = "c6";
                assert(s@ =~= key_alias(self));
                s
            },
            ColourKey::Color7 => {
                proof {
                    reveal_strlit("c7");
                }
                let s = "c7";
                assert(s@ =~= key_alias(self));
                s
            },
            ColourKey::Color8 => {
                proof {
                    reveal_strlit("c8");
                }
                let s = "c8";
                assert(s@ =~= key_alias(self));
                s
            },
            ColourKey::Color9 => {
                proof {
                    reveal_strlit("c9");
                }
                let s = "c9";
                assert(s@ =~= key_alias(self));
                s
            },
            ColourKey::Color10 => {
                proof {
                    reveal_strlit("c10");
                }
                let s = "c10";
                assert(s@ =~= key_alias(self));
                s
            },
            ColourKey::Color11 => {
                proof {
                    reveal_strlit("c11");
                }
                let s = "c11";
                assert(s@ =~= key_alias(self));
                s
            },
            ColourKey::Color12 => {
                proof {
                    reveal_strlit("c12");
                }
                let s = "c12";
                assert(s@ =~= key_alias(self));
                s
            },
            ColourKey::Color13 => {
                proof {
                    reveal_strlit("c13");
                }
                let s = "c13";
                assert(s@ =~= key_alias(self));
                s
            },
            ColourKey::Color14 => {
                proof {
                    reveal_strlit("c14");
                }
                let s = "c14";
                assert(s@ =~= key_alias(self));
                s
            },
            ColourKey::Color15 => {
                proof {
                    reveal_strlit("c15");
                }
                let s = "c15";
                assert(s@ =~= key_alias(self));
                s
            },
        }
    }

    /// The key with the name `s`.
    pub fn from_name(s: &str) -> (k: Option<ColourKey>)
        ensures
            k == key_named(s@),
    {
        key_with_name(&chars_of(s))
    }

    /// The key with the alias `s`.
    pub fn from_alias(s: &str) -> (k: Option<ColourKey>)
        ensures
            k == key_aliased(s@),
    {
        key_with_alias(&chars_of(s))
    }

    /// The key that `s` stands for in a key list: the key with that alias,
    /// else the key with that name.
    pub fn resolve(s: &str) -> (k: Option<ColourKey>)
        ensures
            k == resolved_key(s@),
    {
        resolve_key(&chars_of(s))
    }
}

/// The key at place `i` of the fixed order.
pub(crate) fn key_of_index(i: usize) -> (k: ColourKey)
    requires
        i < 19,
    ensures
        k == key_at(i as int),
        key_index(k) == i,
{
    match ColourKey::from_index(i) {
        Some(k) => k,
        None => ColourKey::Foreground,
    }
}

/// The key with the name `v`.
pub fn key_with_name(v: &Vec<char>) -> (k: Option<ColourKey>)
    ensures
        k == key_named(v@),
{
    let mut i: usize = 0;
    while i < KEY_COUNT
        invariant
            i <= 19,
            key_named(v@) == key_named_from(v@, i as int),
        decreases 19 - i,
    {
        let k = key_of_index(i);
        if same_chars(v, k.name()) {
            return Some(k);
        }
        i += 1;
    }
    None
}

/// The key with the alias `v`.
pub fn key_with_alias(v: &Vec<char>) -> (k: Option<ColourKey>)
    ensures
        k == key_aliased(v@),
{
    let mut i: usize = 0;
    while i < KEY_COUNT
        invariant
            i <= 19,
            key_aliased(v@) == key_aliased_from(v@, i as int),
        decreases 19 - i,
    {
        let k = key_of_index(i);
        if same_chars(v, k.alias()) {
            return Some(k);
        }
        i += 1;
    }
    None
}

/// The key that `v` stands for in a key list.
pub fn resolve_key(v: &Vec<char>) -> (k: Option<ColourKey>)
    ensures
        k == resolved_key(v@),
{
    match key_with_alias(v) {
        Some(k) => Some(k),
        None => key_with_name(v),
    }
}

} // verus!
