//! Changing the palette of a configuration text: random colours, the present
//! colours in another order, or colours that the user names.

use crate::colours::{extract_current_colours, extracted, substituted, update_kitty_config_with_colours};
use crate::keys::{
    key_index, key_of_index, keys_where, lemma_key_index, resolve_key, resolved_key,
    ColourKey, KEY_COUNT,
};
use crate::palette::{
    colours_of, lemma_palette_of_push, missing_keys_of, palette_of, value_or_black, PaletteMap,
};
use crate::select::{
    input_view, key_list_items, key_takes_part, listed_keys, parse_color_keys_input, takes_part,
    unknown_items,
};
use crate::text::{chars_of, list_items, split_list, string_of, string_views, views};
use crate::util::generate_random_colour_hex;
use crate::value::{black_value, colour_views, is_colour_value, is_lower_colour_value, ColourValue};
use rand::seq::SliceRandom;
use vstd::prelude::*;

verus! {

/// Whether a shuffle exchanges the colour of the key: the key takes part and
/// `current` gives it a colour.
pub open spec fn is_eligible(
    current: Map<ColourKey, Seq<char>>,
    forced: Seq<ColourKey>,
    excepted: Seq<ColourKey>,
) -> spec_fn(ColourKey) -> bool {
    |k: ColourKey| takes_part(k, forced, excepted) && current.dom().contains(k)
}

/// The keys whose colours a shuffle exchanges, in the fixed order.
pub open spec fn eligible_keys(
    current: Map<ColourKey, Seq<char>>,
    forced: Seq<ColourKey>,
    excepted: Seq<ColourKey>,
) -> Seq<ColourKey> {
    keys_where(is_eligible(current, forced, excepted), 19)
}

/// Whether the key is left out of a change and `current` gives it no colour.
pub open spec fn is_left_without_colour(
    current: Map<ColourKey, Seq<char>>,
    forced: Seq<ColourKey>,
    excepted: Seq<ColourKey>,
) -> spec_fn(ColourKey) -> bool {
    |k: ColourKey| !takes_part(k, forced, excepted) && !current.dom().contains(k)
}

/// The colour of the key `k` after a shuffle that handed out `values`: the
/// eligible keys get the values one after the other, in the fixed order of the
/// keys, and `000000` once the values have run out; every other key keeps its
/// colour, or gets `000000` where it had none.
pub open spec fn shuffled_colour(
    current: Map<ColourKey, Seq<char>>,
    forced: Seq<ColourKey>,
    excepted: Seq<ColourKey>,
    values: Seq<Seq<char>>,
    k: ColourKey,
) -> Seq<char> {
    let rank = keys_where(is_eligible(current, forced, excepted), key_index(k)).len() as int;
    if is_eligible(current, forced, excepted)(k) {
        if rank < values.len() {
            values[rank]
        } else {
            black_value()
        }
    } else {
        value_or_black(current, k)
    }
}

/// The palette after a shuffle that handed out `values`: a colour for each of
/// the nineteen keys.
pub open spec fn shuffled_palette(
    current: Map<ColourKey, Seq<char>>,
    forced: Seq<ColourKey>,
    excepted: Seq<ColourKey>,
    values: Seq<Seq<char>>,
) -> Map<ColourKey, Seq<char>> {
    Map::new(
        |k: ColourKey| true,
        |k: ColourKey| shuffled_colour(current, forced, excepted, values, k),
    )
}

/// A palette and the configuration text that holds it.
#[derive(Clone, Debug, PartialEq, Eq)]
pub struct Update {
    /// The colours that were written into the text.
    pub colours: PaletteMap,
    /// The new configuration text.
    pub content: String,
}

/// What giving random colours came to.
#[derive(Clone, Debug, PartialEq, Eq)]
pub struct RandomReport {
    /// The colours that were written into the text: one for each key.
    pub colours: PaletteMap,
    /// The new configuration text.
    pub content: String,
    /// The items of the two key lists that stand for no key.
    pub unknown_keys: Vec<String>,
    /// The keys that were left out and had no colour: they got `000000`.
    pub missing_keys: Vec<ColourKey>,
}

/// What a shuffle came to.
#[derive(Clone, Debug, PartialEq, Eq)]
pub struct ShuffleReport {
    /// The new palette and text, or nothing where fewer than two colours
    /// could be exchanged.
    pub update: Option<Update>,
    /// The items of the two key lists that stand for no key.
    pub unknown_keys: Vec<String>,
    /// The keys without a colour in the text.
    pub missing_keys: Vec<ColourKey>,
}

/// `rand::seq::SliceRandom::shuffle` with `rand::rng()`, the generator of the
/// running thread, puts the items of a slice into a random order by exchanging
/// them in place: the colours afterwards are the colours before, each as often
/// as before.
#[verifier::external_body]
fn shuffle_colours(values: &mut Vec<ColourValue>)
    ensures
        colour_views(final(values)@).to_multiset() == colour_views(old(values)@).to_multiset(),
{
    values.shuffle(&mut rand::rng());
}

/// The items of the two key lists that stand for no key: those of the forced
/// keys, then those of the excepted keys.
fn join_unknown(forced: Vec<String>, excepted: Vec<String>) -> (all: Vec<String>)
    ensures
        string_views(all@) == string_views(forced@) + string_views(excepted@),
{
    let mut all = forced;
    let mut excepted = excepted;
    let ghost first = string_views(all@);
    let ghost second = string_views(excepted@);
    all.append(&mut excepted);
    assert(string_views(all@) =~= first + second);
    all
}

/// The palette after a shuffle that handed out `values`: the keys that take
/// part and have a colour in `current` get the values one after the other;
/// every other key keeps its colour, or gets `000000`.
pub fn assign_shuffled(
    current: &PaletteMap,
    forced: &Vec<ColourKey>,
    excepted: &Vec<ColourKey>,
    values: &Vec<ColourValue>,
) -> (colours: PaletteMap)
    ensures
        colours@ == shuffled_palette(current@, forced@, excepted@, colour_views(values@)),
{
    let mut colours = PaletteMap::new();
    let mut next: usize = 0;
    let mut i: usize = 0;
    let ghost wanted = shuffled_palette(current@, forced@, excepted@, colour_views(values@));
    while i < KEY_COUNT
        invariant
            i <= 19,
            next <= i,
            next == keys_where(is_eligible(current@, forced@, excepted@), i as int).len(),
            wanted == shuffled_palette(current@, forced@, excepted@, colour_views(values@)),
            forall|k: ColourKey|
                #![trigger colours@.dom().contains(k)]
                colours@.dom().contains(k) <==> key_index(k) < i,
            forall|k: ColourKey| key_index(k) < i ==> #[trigger] colours@[k] == wanted[k],
        decreases 19 - i,
    {
        let k = key_of_index(i);
        let colour = if key_takes_part(k, forced, excepted) && current.contains_key(k) {
            if next < values.len() {
                next += 1;
                values[next - 1]
            } else {
                next += 1;
                ColourValue::black()
            }
        } else {
            current.get_or_black(k)
        };
        assert(colour@ == wanted[k]);
        colours.insert(k, colour);
        assert forall|other: ColourKey|
            #![trigger colours@.dom().contains(other)]
            colours@.dom().contains(other) <==> key_index(other) < i + 1 by {
            lemma_key_index(other);
        }
        i += 1;
    }
    assert(colours@ =~= wanted) by {
        assert forall|k: ColourKey| colours@.dom().contains(k) by {
            lemma_key_index(k);
        }
        assert forall|k: ColourKey| #[trigger] colours@[k] == wanted[k] by {
            lemma_key_index(k);
        }
    }
    colours
}

/// The present colours of the keys that take part, in another order, written
/// into the configuration text. The keys that take part are the forced keys
/// or, where none is forced, all but the excepted keys; only those with a
/// colour in the text exchange colours. Every other key keeps its colour, and
/// gets `000000` where the text gave it none. Where fewer than two colours
/// could be exchanged, nothing is written.
pub fn shuffle_current_colours(
    content: &str,
    exception_keys_input: &Option<String>,
    force_keys_input: &Option<String>,
) -> (report: ShuffleReport)
    ensures
        ({
            let current = extracted(content@);
            let forced = listed_keys(key_list_items(input_view(*force_keys_input)));
            let excepted = listed_keys(key_list_items(input_view(*exception_keys_input)));
            let eligible = eligible_keys(current, forced, excepted);
            &&& report.update is Some <==> eligible.len() >= 2
            &&& report.update matches Some(update) ==> {
                &&& update.content@ == substituted(content@, update.colours@)
                &&& forall|k: ColourKey| #[trigger] update.colours@.dom().contains(k)
                &&& forall|k: ColourKey|
                    !is_eligible(current, forced, excepted)(k) ==> #[trigger] update.colours@[k]
                        == value_or_black(current, k)
                &&& colours_of(eligible, update.colours@).to_multiset() == colours_of(
                    eligible,
                    current,
                ).to_multiset()
            }
            &&& string_views(report.unknown_keys@) == unknown_items(
                key_list_items(input_view(*force_keys_input)),
            ) + unknown_items(key_list_items(input_view(*exception_keys_input)))
            &&& report.missing_keys@ == missing_keys_of(current)
        }),
{
    let current = extract_current_colours(content);
    let forced = parse_color_keys_input(force_keys_input);
    let excepted = parse_color_keys_input(exception_keys_input);
    let ghost wanted = is_eligible(current@, forced.keys@, excepted.keys@);
    let mut values: Vec<ColourValue> = Vec::new();
    let mut i: usize = 0;
    assert(colour_views(values@) =~= colours_of(keys_where(wanted, 0), current@));
    while i < KEY_COUNT
        invariant
            i <= 19,
            wanted == is_eligible(current@, forced.keys@, excepted.keys@),
            colour_views(values@) == colours_of(keys_where(wanted, i as int), current@),
        decreases 19 - i,
    {
        let k = key_of_index(i);
        if key_takes_part(k, &forced.keys, &excepted.keys) {
            match current.get(k) {
                Some(v) => {
                    let ghost before = values@;
                    values.push(v);
                    assert(wanted(k));
                    assert(keys_where(wanted, i + 1) == keys_where(wanted, i as int).push(k));
                    assert(colour_views(values@) =~= colour_views(before).push(v@));
                    assert(colour_views(values@) =~= colours_of(
                        keys_where(wanted, i + 1),
                        current@,
                    ));
                },
                None => {},
            }
        }
        i += 1;
    }
    let missing_keys = current.missing_keys();
    let unknown_keys = join_unknown(forced.unknown, excepted.unknown);
    if values.len() < 2 {
        return ShuffleReport { update: None, unknown_keys, missing_keys };
    }
    let ghost before = colour_views(values@);
    shuffle_colours(&mut values);
    let colours = assign_shuffled(&current, &forced.keys, &excepted.keys, &values);
    proof {
        lemma_shuffled_palette(current@, forced.keys@, excepted.keys@, colour_views(values@));
    }
    let content = update_kitty_config_with_colours(content, &colours);
    ShuffleReport { update: Some(Update { colours, content }), unknown_keys, missing_keys }
}

/// After a shuffle that handed out the present colours of the eligible keys
/// in some order, these keys hold the same colours as before, each as often
/// as before, and every other key holds what it held, or `000000`.
pub proof fn lemma_shuffled_palette(
    current: Map<ColourKey, Seq<char>>,
    forced: Seq<ColourKey>,
    excepted: Seq<ColourKey>,
    values: Seq<Seq<char>>,
)
    requires
        values.to_multiset() == colours_of(
            eligible_keys(current, forced, excepted),
            current,
        ).to_multiset(),
    ensures
        ({
            let eligible = eligible_keys(current, forced, excepted);
            let after = shuffled_palette(current, forced, excepted, values);
            &&& colours_of(eligible, after) == values
            &&& colours_of(eligible, after).to_multiset() == colours_of(
                eligible,
                current,
            ).to_multiset()
            &&& forall|k: ColourKey| #[trigger] after.dom().contains(k)
            &&& forall|k: ColourKey|
                !is_eligible(current, forced, excepted)(k) ==> #[trigger] after[k]
                    == value_or_black(current, k)
        }),
{
    broadcast use vstd::seq_lib::to_multiset_len;

    let wanted = is_eligible(current, forced, excepted);
    let eligible = eligible_keys(current, forced, excepted);
    let after = shuffled_palette(current, forced, excepted, values);
    crate::keys::lemma_keys_where(wanted, 19);
    assert(values.len() == values.to_multiset().len());
    assert(colours_of(eligible, current).len() == colours_of(
        eligible,
        current,
    ).to_multiset().len());
    assert(values.len() == eligible.len());
    assert(colours_of(eligible, after) =~= values) by {
        assert forall|i: int| 0 <= i < eligible.len() implies colours_of(eligible, after)[i]
            == values[i] by {
            let k = eligible[i];
            assert(wanted(k));
            assert(keys_where(wanted, key_index(k)).len() == i);
        }
    }
}

/// Random colours for the keys that take part, written into the
/// configuration text. The keys that take part are the forced keys or, where
/// none is forced, all but the excepted keys. Every other key keeps its
/// colour, and gets `000000` where the text gave it none.
pub fn apply_random_colours_to_kitty(
    content: &str,
    exception_keys_input: &Option<String>,
    force_keys_input: &Option<String>,
) -> (report: RandomReport)
    ensures
        ({
            let current = extracted(content@);
            let forced = listed_keys(key_list_items(input_view(*force_keys_input)));
            let excepted = listed_keys(key_list_items(input_view(*exception_keys_input)));
            &&& report.content@ == substituted(content@, report.colours@)
            &&& forall|k: ColourKey| #[trigger] report.colours@.dom().contains(k)
            &&& forall|k: ColourKey|
                takes_part(k, forced, excepted) ==> is_lower_colour_value(
                    #[trigger] report.colours@[k],
                )
            &&& forall|k: ColourKey|
                !takes_part(k, forced, excepted) ==> #[trigger] report.colours@[k]
                    == value_or_black(current, k)
            &&& string_views(report.unknown_keys@) == unknown_items(
                key_list_items(input_view(*force_keys_input)),
            ) + unknown_items(key_list_items(input_view(*exception_keys_input)))
            &&& report.missing_keys@ == keys_where(
                is_left_without_colour(current, forced, excepted),
                19,
            )
        }),
{
    let current = extract_current_colours(content);
    let forced = parse_color_keys_input(force_keys_input);
    let excepted = parse_color_keys_input(exception_keys_input);
    let ghost left = is_left_without_colour(current@, forced.keys@, excepted.keys@);
    let mut colours = PaletteMap::new();
    let mut missing_keys: Vec<ColourKey> = Vec::new();
    let mut i: usize = 0;
    while i < KEY_COUNT
        invariant
            i <= 19,
            left == is_left_without_colour(current@, forced.keys@, excepted.keys@),
            missing_keys@ == keys_where(left, i as int),
            forall|k: ColourKey|
                #![trigger colours@.dom().contains(k)]
                colours@.dom().contains(k) <==> key_index(k) < i,
            forall|k: ColourKey|
                key_index(k) < i && takes_part(k, forced.keys@, excepted.keys@)
                    ==> is_lower_colour_value(#[trigger] colours@[k]),
            forall|k: ColourKey|
                key_index(k) < i && !takes_part(k, forced.keys@, excepted.keys@)
                    ==> #[trigger] colours@[k] == value_or_black(current@, k),
        decreases 19 - i,
    {
        let k = key_of_index(i);
        if key_takes_part(k, &forced.keys, &excepted.keys) {
            colours.insert(k, generate_random_colour_hex());
        } else {
            if !current.contains_key(k) {
                missing_keys.push(k);
            }
            colours.insert(k, current.get_or_black(k));
        }
        assert forall|other: ColourKey|
            #![trigger colours@.dom().contains(other)]
            colours@.dom().contains(other) <==> key_index(other) < i + 1 by {
            lemma_key_index(other);
        }
        i += 1;
    }
    assert forall|k: ColourKey| #[trigger] colours@.dom().contains(k) by {
        lemma_key_index(k);
    }
    assert forall|k: ColourKey| key_index(k) < 19 by {
        lemma_key_index(k);
    }
    let unknown_keys = join_unknown(forced.unknown, excepted.unknown);
    let content = update_kitty_config_with_colours(content, &colours);
    RandomReport { colours, content, unknown_keys, missing_keys }
}

/// Why colours that the user named were not set.
pub enum SetColourFault {
    /// There are not as many colours as keys.
    CountMismatch { keys: nat, colours: nat },
    /// An item of the colours is not six hexadecimal digits.
    InvalidColour(Seq<char>),
    /// An item of the keys is neither an alias nor a name of a key.
    UnknownKey(Seq<char>),
}

/// Why colours that the user named were not set.
#[derive(Clone, Debug, PartialEq, Eq)]
pub enum SetColourError {
    /// There are not as many colours as keys.
    CountMismatch { keys: usize, colours: usize },
    /// This item of the colours is not six hexadecimal digits.
    InvalidColour(String),
    /// This item of the keys is neither an alias nor a name of a key.
    UnknownKey(String),
}

impl View for SetColourError {
    type V = SetColourFault;

    open spec fn view(&self) -> SetColourFault {
        match self {
            SetColourError::CountMismatch { keys, colours } => SetColourFault::CountMismatch {
                keys: *keys as nat,
                colours: *colours as nat,
            },
            SetColourError::InvalidColour(item) => SetColourFault::InvalidColour(item@),
            SetColourError::UnknownKey(item) => SetColourFault::UnknownKey(item@),
        }
    }
}

/// The first fault among the pairs of key and colour from place `from` on:
/// in each pair the colour is looked at before the key.
pub open spec fn first_fault(keys: Seq<Seq<char>>, colours: Seq<Seq<char>>, from: int) -> Option<
    SetColourFault,
>
    decreases keys.len() - from,
{
    if from < 0 || from >= keys.len() || from >= colours.len() {
        None
    } else if !is_colour_value(colours[from]) {
        Some(SetColourFault::InvalidColour(colours[from]))
    } else if resolved_key(keys[from]) is None {
        Some(SetColourFault::UnknownKey(keys[from]))
    } else {
        first_fault(keys, colours, from + 1)
    }
}

/// The pairs of key and colour, each key resolved.
pub open spec fn named_entries(keys: Seq<Seq<char>>, colours: Seq<Seq<char>>) -> Seq<
    Option<(ColourKey, Seq<char>)>,
> {
    Seq::new(
        keys.len(),
        |i: int|
            match resolved_key(keys[i]) {
                Some(k) => Some((k, colours[i])),
                None => None,
            },
    )
}

/// The palette that a list of keys and a list of colours name: the keys and
/// the colours are the items of two comma-separated lists, the first colour
/// for the first key and so on; a key that is named twice gets its last
/// colour. There must be as many colours as keys, each colour six hexadecimal
/// digits and each key an alias or a name.
pub open spec fn named_palette(key_list: Seq<char>, colour_list: Seq<char>) -> Result<
    Map<ColourKey, Seq<char>>,
    SetColourFault,
> {
    let keys = list_items(key_list);
    let colours = list_items(colour_list);
    if keys.len() != colours.len() {
        Err(SetColourFault::CountMismatch { keys: keys.len(), colours: colours.len() })
    } else {
        match first_fault(keys, colours, 0) {
            Some(fault) => Err(fault),
            None => Ok(palette_of(named_entries(keys, colours))),
        }
    }
}

/// The palette that a list of keys and a list of colours name, such as
/// `bg,fg` and `000000,FFFFFF`.
pub fn named_colours(keys: &str, hex_values: &str) -> (r: Result<PaletteMap, SetColourError>)
    ensures
        match named_palette(keys@, hex_values@) {
            Ok(palette) => r is Ok && r->Ok_0@ == palette,
            Err(fault) => r is Err && r->Err_0@ == fault,
        },
{
    let key_items = split_list(&chars_of(keys));
    let colour_items = split_list(&chars_of(hex_values));
    if key_items.len() != colour_items.len() {
        return Err(
            SetColourError::CountMismatch { keys: key_items.len(), colours: colour_items.len() },
        );
    }
    let ghost ks = views(key_items@);
    let ghost cs = views(colour_items@);
    let mut colours = PaletteMap::new();
    let mut i: usize = 0;
    assert(colours@ =~= palette_of(named_entries(ks, cs).take(0)));
    while i < key_items.len()
        invariant
            i <= key_items.len(),
            key_items.len() == colour_items.len(),
            ks == views(key_items@),
            cs == views(colour_items@),
            ks == list_items(keys@),
            cs == list_items(hex_values@),
            first_fault(ks, cs, 0) == first_fault(ks, cs, i as int),
            colours@ == palette_of(named_entries(ks, cs).take(i as int)),
        decreases key_items.len() - i,
    {
        let v = match ColourValue::from_chars(&colour_items[i]) {
            Some(v) => v,
            None => {
                return Err(SetColourError::InvalidColour(string_of(&colour_items[i])));
            },
        };
        let k = match resolve_key(&key_items[i]) {
            Some(k) => k,
            None => {
                return Err(SetColourError::UnknownKey(string_of(&key_items[i])));
            },
        };
        proof {
            let all = named_entries(ks, cs);
            lemma_palette_of_push(all.take(i as int), all[i as int]);
            assert(all.take(i + 1) == all.take(i as int).push(all[i as int]));
        }
        colours.insert(k, v);
        i += 1;
    }
    assert(named_entries(ks, cs).take(key_items.len() as int) == named_entries(ks, cs));
    Ok(colours)
}

/// The configuration text with the colours that the user named in it, or the
/// reason why nothing is to be written: the colours are set all together or
/// not at all.
pub fn set_colours(content: &str, keys: &str, hex_values: &str) -> (r: Result<
    Update,
    SetColourError,
>)
    ensures
        match named_palette(keys@, hex_values@) {
            Ok(palette) => r is Ok && r->Ok_0.colours@ == palette && r->Ok_0.content@
                == substituted(content@, palette),
            Err(fault) => r is Err && r->Err_0@ == fault,
        },
{
    match named_colours(keys, hex_values) {
        Ok(colours) => {
            let content = update_kitty_config_with_colours(content, &colours);
            Ok(Update { colours, content })
        },
        Err(fault) => Err(fault),
    }
}

} // verus!
