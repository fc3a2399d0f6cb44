//! A palette: colours for some of the nineteen keys.

use crate::keys::{
    key_index, key_of_index, keys_where, lemma_key_index, lemma_keys_where, ColourKey, KEY_COUNT,
};
use crate::value::{black_value, is_colour_value, ColourValue};
use vstd::prelude::*;

verus! {

/// Every colour of the palette is six hexadecimal digits.
pub open spec fn is_palette(m: Map<ColourKey, Seq<char>>) -> bool {
    forall|k: ColourKey| m.dom().contains(k) ==> is_colour_value(#[trigger] m[k])
}

/// The colour that `m` gives to `k`, and `000000` where it gives none.
pub open spec fn value_or_black(m: Map<ColourKey, Seq<char>>, k: ColourKey) -> Seq<char> {
    if m.dom().contains(k) {
        m[k]
    } else {
        black_value()
    }
}

/// Whether `m` gives the key a colour.
pub open spec fn has_colour(m: Map<ColourKey, Seq<char>>) -> spec_fn(ColourKey) -> bool {
    |k: ColourKey| m.dom().contains(k)
}

/// Whether `m` gives the key no colour.
pub open spec fn lacks_colour(m: Map<ColourKey, Seq<char>>) -> spec_fn(ColourKey) -> bool {
    |k: ColourKey| !m.dom().contains(k)
}

/// The keys to which `m` gives a colour, in the fixed order.
pub open spec fn keys_of(m: Map<ColourKey, Seq<char>>) -> Seq<ColourKey> {
    keys_where(has_colour(m), 19)
}

/// The keys to which `m` gives no colour, in the fixed order.
pub open spec fn missing_keys_of(m: Map<ColourKey, Seq<char>>) -> Seq<ColourKey> {
    keys_where(lacks_colour(m), 19)
}

/// The colours that `m` gives to `keys`, in the order of `keys`.
pub open spec fn colours_of(keys: Seq<ColourKey>, m: Map<ColourKey, Seq<char>>) -> Seq<Seq<char>> {
    Seq::new(keys.len(), |i: int| m[keys[i]])
}

/// The colour that the entries give to the key `k`: the one of the last entry
/// for `k`.
pub open spec fn last_colour(entries: Seq<Option<(ColourKey, Seq<char>)>>, k: ColourKey) -> Option<
    Seq<char>,
>
    decreases entries.len(),
{
    if entries.len() == 0 {
        None
    } else {
        match entries.last() {
            Some((key, v)) => if key == k {
                Some(v)
            } else {
                last_colour(entries.drop_last(), k)
            },
            None => last_colour(entries.drop_last(), k),
        }
    }
}

/// The palette that a row of entries makes: each key with the colour of its
/// last entry.
pub open spec fn palette_of(entries: Seq<Option<(ColourKey, Seq<char>)>>) -> Map<
    ColourKey,
    Seq<char>,
> {
    Map::new(
        |k: ColourKey| last_colour(entries, k) is Some,
        |k: ColourKey| last_colour(entries, k)->0,
    )
}

/// One more entry gives its key its colour and leaves the other keys alone.
pub proof fn lemma_palette_of_push(
    entries: Seq<Option<(ColourKey, Seq<char>)>>,
    entry: Option<(ColourKey, Seq<char>)>,
)
    ensures
        palette_of(entries.push(entry)) == match entry {
            Some((k, v)) => palette_of(entries).insert(k, v),
            None => palette_of(entries),
        },
{
    let more = entries.push(entry);
    assert(more.drop_last() == entries);
    assert(more.last() == entry);
    match entry {
        Some((k, v)) => {
            assert(palette_of(more) =~= palette_of(entries).insert(k, v));
        },
        None => {
            assert(palette_of(more) =~= palette_of(entries));
        },
    }
}

/// The colour that the entry gives to the key `k`.
pub open spec fn entry_colour(entry: Option<(ColourKey, Seq<char>)>, k: ColourKey) -> Option<
    Seq<char>,
> {
    match entry {
        Some((key, v)) => if key == k {
            Some(v)
        } else {
            None
        },
        None => None,
    }
}

/// Two rows of entries that give the key `k` the same colours at the same
/// places give it the same colour in the end.
pub proof fn lemma_last_colour_same(
    a: Seq<Option<(ColourKey, Seq<char>)>>,
    b: Seq<Option<(ColourKey, Seq<char>)>>,
    k: ColourKey,
)
    requires
        a.len() == b.len(),
        forall|i: int| 0 <= i < a.len() ==> entry_colour(#[trigger] a[i], k) == entry_colour(b[i], k),
    ensures
        last_colour(a, k) == last_colour(b, k),
    decreases a.len(),
{
    if a.len() > 0 {
        assert(entry_colour(a[a.len() - 1], k) == entry_colour(b[a.len() - 1], k));
        assert forall|i: int| 0 <= i < a.drop_last().len() implies entry_colour(
            #[trigger] a.drop_last()[i],
            k,
        ) == entry_colour(b.drop_last()[i], k) by {
            assert(entry_colour(a[i], k) == entry_colour(b[i], k));
        }
        lemma_last_colour_same(a.drop_last(), b.drop_last(), k);
    }
}

/// The entries give the key `k` a colour where one of them does, and it is
/// the colour `v` where every entry for `k` says `v`.
pub proof fn lemma_last_colour(
    a: Seq<Option<(ColourKey, Seq<char>)>>,
    k: ColourKey,
    v: Seq<char>,
)
    ensures
        last_colour(a, k) is Some <==> exists|i: int|
            0 <= i < a.len() && entry_colour(#[trigger] a[i], k) is Some,
        (forall|i: int|
            0 <= i < a.len() && entry_colour(#[trigger] a[i], k) is Some ==> entry_colour(a[i], k)
                == Some(v)) && last_colour(a, k) is Some ==> last_colour(a, k) == Some(v),
    decreases a.len(),
{
    if a.len() > 0 {
        let n = a.len() - 1;
        let rest = a.drop_last();
        lemma_last_colour(rest, k, v);
        assert(forall|i: int| 0 <= i < rest.len() ==> rest[i] == a[i]);
        if entry_colour(a[n], k) is Some {
        } else {
            if last_colour(rest, k) is Some {
                let i = choose|i: int|
                    0 <= i < rest.len() && entry_colour(#[trigger] rest[i], k) is Some;
                assert(entry_colour(a[i], k) is Some);
            }
            if exists|i: int| 0 <= i < a.len() && entry_colour(#[trigger] a[i], k) is Some {
                let i = choose|i: int| 0 <= i < a.len() && entry_colour(#[trigger] a[i], k) is Some;
                assert(i < n);
                assert(entry_colour(rest[i], k) is Some);
            }
            if forall|i: int|
                0 <= i < a.len() && entry_colour(#[trigger] a[i], k) is Some ==> entry_colour(
                    a[i],
                    k,
                ) == Some(v) {
                assert forall|i: int|
                    0 <= i < rest.len() && entry_colour(
                        #[trigger] rest[i],
                        k,
                    ) is Some implies entry_colour(rest[i], k) == Some(v) by {
                    assert(entry_colour(a[i], k) is Some);
                }
            }
        }
    }
}

/// Colours for some of the nineteen keys, each key at most once.
#[derive(Clone, Copy, Debug, PartialEq, Eq)]
pub struct PaletteMap {
    slots: [Option<ColourValue>; 19],
}

impl View for PaletteMap {
    type V = Map<ColourKey, Seq<char>>;

    closed spec fn view(&self) -> Map<ColourKey, Seq<char>> {
        map_of_slots(self.slots@)
    }
}

/// The palette that nineteen slots hold, the slot at a key's place for that
/// key.
spec fn map_of_slots(slots: Seq<Option<ColourValue>>) -> Map<ColourKey, Seq<char>> {
    Map::new(|k: ColourKey| slots[key_index(k)] is Some, |k: ColourKey| slots[key_index(k)]->0@)
}

impl PaletteMap {
    /// Every colour of a palette is six hexadecimal digits.
    #[verifier::type_invariant]
    pub open spec fn well_formed(self) -> bool {
        is_palette(self@)
    }

    /// The palette without any colour.
    pub fn new() -> (p: PaletteMap)
        ensures
            p@ == Map::<ColourKey, Seq<char>>::empty(),
    {
        let p = PaletteMap { slots: [None; 19] };
        assert(p@ =~= Map::<ColourKey, Seq<char>>::empty()) by {
            assert forall|k: ColourKey| !p@.dom().contains(k) by {
                lemma_key_index(k);
            }
        }
        p
    }

    /// Gives `key` the colour `value`, in place of the one it had.
    pub fn insert(&mut self, key: ColourKey, value: ColourValue)
        ensures
            final(self)@ == old(self)@.insert(key, value@),
    {
        proof {
            use_type_invariant(&*self);
            use_type_invariant(&value);
        }
        let i = key.index();
        let mut slots = self.slots;
        slots[i] = Some(value);
        proof {
            let after = map_of_slots(slots@);
            let wanted = old(self)@.insert(key, value@);
            assert forall|k: ColourKey| #[trigger]
                after.dom().contains(k) == wanted.dom().contains(k) by {
                lemma_key_index(k);
            }
            assert forall|k: ColourKey| after.dom().contains(k) implies #[trigger] after[k]
                == wanted[k] by {
                lemma_key_index(k);
                lemma_key_index(key);
            }
            assert(after =~= wanted);
        }
        *self = PaletteMap { slots };
    }

    /// The colour of `key`, if the palette gives it one.
    pub fn get(&self, key: ColourKey) -> (r: Option<ColourValue>)
        ensures
            self@.dom().contains(key) ==> r is Some && r->0@ == self@[key],
            !self@.dom().contains(key) ==> r is None,
    {
        self.slots[key.index()]
    }

    /// Whether the palette gives `key` a colour.
    pub fn contains_key(&self, key: ColourKey) -> (b: bool)
        ensures
            b == self@.dom().contains(key),
    {
        self.slots[key.index()].is_some()
    }

    /// The colour of `key`, and `000000` where the palette gives it none.
    pub fn get_or_black(&self, key: ColourKey) -> (v: ColourValue)
        ensures
            v@ == value_or_black(self@, key),
    {
        match self.slots[key.index()] {
            Some(v) => v,
            None => ColourValue::black(),
        }
    }

    /// The keys to which the palette gives a colour, in the fixed order.
    pub fn keys(&self) -> (keys: Vec<ColourKey>)
        ensures
            keys@ == keys_of(self@),
    {
        let mut keys: Vec<ColourKey> = Vec::new();
        let mut i: usize = 0;
        while i < KEY_COUNT
            invariant
                i <= 19,
                keys@ == keys_where(has_colour(self@), i as int),
            decreases 19 - i,
        {
            let k = key_of_index(i);
            if self.contains_key(k) {
                keys.push(k);
            }
            i += 1;
        }
        keys
    }

    /// The keys to which the palette gives no colour, in the fixed order.
    pub fn missing_keys(&self) -> (keys: Vec<ColourKey>)
        ensures
            keys@ == missing_keys_of(self@),
    {
        let mut keys: Vec<ColourKey> = Vec::new();
        let mut i: usize = 0;
        while i < KEY_COUNT
            invariant
                i <= 19,
                keys@ == keys_where(lacks_colour(self@), i as int),
            decreases 19 - i,
        {
            let k = key_of_index(i);
            if !self.contains_key(k) {
                keys.push(k);
            }
            i += 1;
        }
        keys
    }

    /// The number of keys to which the palette gives a colour.
    pub fn len(&self) -> (n: usize)
        ensures
            n == keys_of(self@).len(),
            n <= 19,
    {
        proof {
            lemma_keys_where(has_colour(self@), 19);
        }
        self.keys().len()
    }

    /// Whether the palette gives no key a colour.
    pub fn is_empty(&self) -> (b: bool)
        ensures
            b == (keys_of(self@).len() == 0),
    {
        self.len() == 0
    }
}

} // verus!
