//! A colour as the configuration file writes it: six hexadecimal digits.

use crate::text::{chars_of, string_of};
use vstd::prelude::*;

verus! {

/// A digit of base sixteen, in either case.
pub open spec fn is_hex_digit(c: char) -> bool {
    ('0' <= c <= '9') || ('a' <= c <= 'f') || ('A' <= c <= 'F')
}

/// A digit of base sixteen that is no upper-case letter.
pub open spec fn is_lower_hex_digit(c: char) -> bool {
    ('0' <= c <= '9') || ('a' <= c <= 'f')
}

/// Six hexadecimal digits.
pub open spec fn is_colour_value(s: Seq<char>) -> bool {
    s.len() == 6 && forall|i: int| 0 <= i < 6 ==> is_hex_digit(#[trigger] s[i])
}

/// Six hexadecimal digits, none of them an upper-case letter.
pub open spec fn is_lower_colour_value(s: Seq<char>) -> bool {
    s.len() == 6 && forall|i: int| 0 <= i < 6 ==> is_lower_hex_digit(#[trigger] s[i])
}

/// The colour that stands for a key without a value: `000000`.
pub open spec fn black_value() -> Seq<char> {
    seq!['0', '0', '0', '0', '0', '0']
}

/// The lower-case digit for a number below sixteen, and `f` for any other.
pub open spec fn lower_hex_digit(n: int) -> char {
    if n == 0 {
        '0'
    } else if n == 1 {
        '1'
    } else if n == 2 {
        '2'
    } else if n == 3 {
        '3'
    } else if n == 4 {
        '4'
    } else if n == 5 {
        '5'
    } else if n == 6 {
        '6'
    } else if n == 7 {
        '7'
    } else if n == 8 {
        '8'
    } else if n == 9 {
        '9'
    } else if n == 10 {
        'a'
    } else if n == 11 {
        'b'
    } else if n == 12 {
        'c'
    } else if n == 13 {
        'd'
    } else if n == 14 {
        'e'
    } else {
        'f'
    }
}

/// The six lower-case digits of three bytes, two for each, the high digit
/// first.
pub open spec fn lower_hex_of(r: u8, g: u8, b: u8) -> Seq<char> {
    seq![
        lower_hex_digit(r as int / 16),
        lower_hex_digit(r as int % 16),
        lower_hex_digit(g as int / 16),
        lower_hex_digit(g as int % 16),
        lower_hex_digit(b as int / 16),
        lower_hex_digit(b as int % 16),
    ]
}

/// The digits of each colour of `vs`, in their order.
pub open spec fn colour_views(vs: Seq<ColourValue>) -> Seq<Seq<char>> {
    Seq::new(vs.len(), |i: int| vs[i]@)
}

/// Whether `c` is a digit of base sixteen.
pub fn is_hex_digit_char(c: char) -> (b: bool)
    ensures
        b == is_hex_digit(c),
{
    ('0' <= c && c <= '9') || ('a' <= c && c <= 'f') || ('A' <= c && c <= 'F')
}

/// The lower-case digit for a number below sixteen, and `f` for any other.
pub fn lower_hex_digit_char(n: u8) -> (c: char)
    ensures
        c == lower_hex_digit(n as int),
        is_lower_hex_digit(c),
{
    match n {
        0 => '0',
        1 => '1',
        2 => '2',
        3 => '3',
        4 => '4',
        5 => '5',
        6 => '6',
        7 => '7',
        8 => '8',
        9 => '9',
        10 => 'a',
        11 => 'b',
        12 => 'c',
        13 => 'd',
        14 => 'e',
        _ => 'f',
    }
}

/// Whether `v` holds six hexadecimal digits.
pub fn is_colour_value_chars(v: &Vec<char>) -> (b: bool)
    ensures
        b == is_colour_value(v@),
{
    if v.len() != 6 {
        return false;
    }
    let mut i: usize = 0;
    while i < 6
        invariant
            i <= 6,
            v.len() == 6,
            forall|j: int| 0 <= j < i ==> is_hex_digit(#[trigger] v@[j]),
        decreases 6 - i,
    {
        if !is_hex_digit_char(v[i]) {
            return false;
        }
        i += 1;
    }
    true
}

/// A colour: six hexadecimal digits, kept as they were written.
#[derive(Clone, Copy, Debug, PartialEq, Eq, Hash)]
pub struct ColourValue {
    digits: [char; 6],
}

impl View for ColourValue {
    type V = Seq<char>;

    closed spec fn view(&self) -> Seq<char> {
        self.digits@
    }
}

impl ColourValue {
    /// Every colour value is six hexadecimal digits.
    #[verifier::type_invariant]
    pub open spec fn well_formed(self) -> bool {
        is_colour_value(self@)
    }

    /// The colour `000000`.
    pub fn black() -> (v: ColourValue)
        ensures
            v@ == black_value(),
    {
        let v = ColourValue { digits: ['0', '0', '0', '0', '0', '0'] };
        assert(v@ =~= black_value());
        v
    }

    /// The colour that `v` spells, where `v` is six hexadecimal digits.
    pub fn from_chars(v: &Vec<char>) -> (r: Option<ColourValue>)
        ensures
            is_colour_value(v@) ==> r is Some && r->0@ == v@,
            !is_colour_value(v@) ==> r is None,
    {
        if is_colour_value_chars(v) {
            let c = ColourValue { digits: [v[0], v[1], v[2], v[3], v[4], v[5]] };
            assert(c@ =~= v@);
            Some(c)
        } else {
            None
        }
    }

    /// The colour that `s` spells, where `s` is six hexadecimal digits.
    pub fn parse(s: &str) -> (r: Option<ColourValue>)
        ensures
            is_colour_value(s@) ==> r is Some && r->0@ == s@,
            !is_colour_value(s@) ==> r is None,
    {
        ColourValue::from_chars(&chars_of(s))
    }

    /// The colour with the given red, green and blue parts, in lower case.
    pub fn from_rgb(r: u8, g: u8, b: u8) -> (v: ColourValue)
        ensures
            v@ == lower_hex_of(r, g, b),
            is_lower_colour_value(v@),
    {
        let v = ColourValue {
            digits: [
                lower_hex_digit_char(r / 16),
                lower_hex_digit_char(r % 16),
                lower_hex_digit_char(g / 16),
                lower_hex_digit_char(g % 16),
                lower_hex_digit_char(b / 16),
                lower_hex_digit_char(b % 16),
            ],
        };
        assert(v@ =~= lower_hex_of(r, g, b));
        v
    }

    /// The six digits.
    pub fn chars(&self) -> (v: Vec<char>)
        ensures
            v@ == self@,
            is_colour_value(v@),
    {
        proof {
            use_type_invariant(self);
        }
        let mut v: Vec<char> = Vec::new();
        let mut i: usize = 0;
        while i < 6
            invariant
                i <= 6,
                self@.len() == 6,
                v@ == self@.take(i as int),
            decreases 6 - i,
        {
            v.push(self.digits[i]);
            i += 1;
        }
        v
    }

    /// The six digits as a string.
    pub fn hex(&self) -> (s: String)
        ensures
            s@ == self@,
            is_colour_value(s@),
    {
        string_of(&self.chars())
    }

    /// Whether the two colours are written with the same six digits.
    pub fn same_as(&self, other: &ColourValue) -> (b: bool)
        ensures
            b == (self@ == other@),
    {
        proof {
            use_type_invariant(self);
            use_type_invariant(other);
        }
        let mut i: usize = 0;
        while i < 6
            invariant
                i <= 6,
                self@.len() == 6,
                other@.len() == 6,
                forall|j: int| 0 <= j < i ==> self@[j] == other@[j],
            decreases 6 - i,
        {
            if self.digits[i] != other.digits[i] {
                return false;
            }
            i += 1;
        }
        assert(self@ =~= other@);
        true
    }
}

} // verus!
