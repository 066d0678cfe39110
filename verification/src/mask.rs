//! Byte classification for quote selection.
//!
//! Every byte of a decoded string falls into a set of categories; the union
//! of the categories seen across the whole string (its mask) drives the
//! choice among the five renderings of a string value.

use vstd::prelude::*;

verus! {

/// The set of byte categories observed in a string: the bitwise union of the
/// per-byte categories, kept as one flag per category.
#[derive(Clone, Copy, PartialEq, Eq, Structural, Debug)]
pub struct CharMask {
    /// A control byte (0x00..=0x1F) occurs.
    pub control: bool,
    /// A tab, line feed or carriage return occurs (these also set `control`).
    pub extended_space: bool,
    /// A double quote occurs.
    pub double_quote: bool,
    /// A single quote occurs.
    pub single_quote: bool,
    /// A backslash occurs.
    pub backslash: bool,
    /// A backtick occurs.
    pub backtick: bool,
    /// A space occurs.
    pub space: bool,
    /// An equal sign occurs.
    pub equal_sign: bool,
}

impl CharMask {
    /// The empty mask: no category observed.
    pub open spec fn none_spec() -> CharMask {
        CharMask {
            control: false,
            extended_space: false,
            double_quote: false,
            single_quote: false,
            backslash: false,
            backtick: false,
            space: false,
            equal_sign: false,
        }
    }

    /// True if no category is set.
    pub open spec fn is_none(self) -> bool {
        self == CharMask::none_spec()
    }

    /// Category-wise union.
    pub open spec fn or_spec(self, other: CharMask) -> CharMask {
        CharMask {
            control: self.control || other.control,
            extended_space: self.extended_space || other.extended_space,
            double_quote: self.double_quote || other.double_quote,
            single_quote: self.single_quote || other.single_quote,
            backslash: self.backslash || other.backslash,
            backtick: self.backtick || other.backtick,
            space: self.space || other.space,
            equal_sign: self.equal_sign || other.equal_sign,
        }
    }

    /// The empty mask.
    pub fn none() -> (r: CharMask)
        ensures
            r == CharMask::none_spec(),
    {
        CharMask {
            control: false,
            extended_space: false,
            double_quote: false,
            single_quote: false,
            backslash: false,
            backtick: false,
            space: false,
            equal_sign: false,
        }
    }

    /// Category-wise union.
    pub fn or(self, other: CharMask) -> (r: CharMask)
        ensures
            r == self.or_spec(other),
    {
        CharMask {
            control: self.control || other.control,
            extended_space: self.extended_space || other.extended_space,
            double_quote: self.double_quote || other.double_quote,
            single_quote: self.single_quote || other.single_quote,
            backslash: self.backslash || other.backslash,
            backtick: self.backtick || other.backtick,
            space: self.space || other.space,
            equal_sign: self.equal_sign || other.equal_sign,
        }
    }
}

/// The categories of one byte.
pub open spec fn char_group(b: u8) -> CharMask {
    CharMask {
        control: b < 0x20,
        extended_space: b == 0x09 || b == 0x0A || b == 0x0D,
        double_quote: b == 0x22,
        single_quote: b == 0x27,
        backslash: b == 0x5C,
        backtick: b == 0x60,
        space: b == 0x20,
        equal_sign: b == 0x3D,
    }
}

/// The categories of one byte.
pub fn char_group_of(b: u8) -> (r: CharMask)
    ensures
        r == char_group(b),
{
    CharMask {
        control: b < 0x20,
        extended_space: b == 0x09 || b == 0x0A || b == 0x0D,
        double_quote: b == 0x22,
        single_quote: b == 0x27,
        backslash: b == 0x5C,
        backtick: b == 0x60,
        space: b == 0x20,
        equal_sign: b == 0x3D,
    }
}

/// The union of the categories of all bytes of `s`.
pub open spec fn mask_of(s: Seq<u8>) -> CharMask
    decreases s.len(),
{
    if s.len() == 0 {
        CharMask::none_spec()
    } else {
        mask_of(s.drop_last()).or_spec(char_group(s.last()))
    }
}

/// Computes the mask of a byte run.
pub fn compute_mask(s: &[u8]) -> (r: CharMask)
    ensures
        r == mask_of(s@),
{
    let mut m = CharMask::none();
    let mut i: usize = 0;
    while i < s.len()
        invariant
            0 <= i <= s@.len(),
            m == mask_of(s@.take(i as int)),
        decreases s@.len() - i,
    {
        m = m.or(char_group_of(s[i]));
        proof {
            assert(s@.take(i + 1).drop_last() =~= s@.take(i as int));
            assert(s@.take(i + 1).last() == s@[i as int]);
        }
        i = i + 1;
    }
    proof {
        assert(s@.take(s@.len() as int) =~= s@);
    }
    m
}

/// The five renderings a string value can receive.
#[derive(Clone, Copy, PartialEq, Eq, Structural, Debug)]
pub enum Quoting {
    /// The decoded bytes, unquoted.
    Bare,
    /// The decoded bytes wrapped in double quotes, with no escaping.
    DoubleQuoted,
    /// The decoded bytes wrapped in single quotes, with no escaping.
    SingleQuoted,
    /// The decoded bytes wrapped in backticks, with no escaping.
    Backticked,
    /// Full escaping of the decoded bytes, wrapped in double quotes.
    Escaped,
}

/// Selects the cheapest unambiguous rendering from the mask of the decoded
/// bytes and the first decoded byte. Only a top-level scalar value applies
/// the bracket exception, which keeps a bare rendering from being misread
/// as the opener of a nested array or object.
pub open spec fn select_quoting(m: CharMask, first: u8, top: bool) -> Quoting {
    if m.is_none() && !(top && (first == 0x5B || first == 0x7B)) {
        Quoting::Bare
    } else if !m.double_quote && !m.control && !m.backslash {
        Quoting::DoubleQuoted
    } else if !m.single_quote && !m.control && !m.backslash {
        Quoting::SingleQuoted
    } else if !m.backtick && (m.control == m.extended_space) {
        Quoting::Backticked
    } else {
        Quoting::Escaped
    }
}

/// Selects the rendering for a decoded byte run.
pub fn select_quoting_of(m: CharMask, first: u8, top: bool) -> (r: Quoting)
    ensures
        r == select_quoting(m, first, top),
{
    let is_none = !m.control && !m.extended_space && !m.double_quote && !m.single_quote
        && !m.backslash && !m.backtick && !m.space && !m.equal_sign;
    if is_none && !(top && (first == 0x5B || first == 0x7B)) {
        Quoting::Bare
    } else if !m.double_quote && !m.control && !m.backslash {
        Quoting::DoubleQuoted
    } else if !m.single_quote && !m.control && !m.backslash {
        Quoting::SingleQuoted
    } else if !m.backtick && (m.control == m.extended_space) {
        Quoting::Backticked
    } else {
        Quoting::Escaped
    }
}

/// Quote selection is deterministic and total: every byte-classification
/// mask, together with the first byte and the position of the call, maps to
/// exactly one of the five renderings, and the choice depends on nothing
/// but the mask and whether the first byte opens a bracket.
pub proof fn lemma_quoting_total(m: CharMask, first: u8, top: bool)
    ensures
        select_quoting(m, first, top) == Quoting::Bare
            || select_quoting(m, first, top) == Quoting::DoubleQuoted
            || select_quoting(m, first, top) == Quoting::SingleQuoted
            || select_quoting(m, first, top) == Quoting::Backticked
            || select_quoting(m, first, top) == Quoting::Escaped,
        forall|first2: u8|
            ((first2 == 0x5B || first2 == 0x7B) == (first == 0x5B || first == 0x7B))
                ==> select_quoting(m, first2, top) == select_quoting(m, first, top),
{
}

} // verus!
