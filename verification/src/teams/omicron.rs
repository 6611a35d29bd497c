//! Omicron requirements of a mission and the compact text form of an
//! ability tag.

use vstd::prelude::*;
use vstd::string::StringExecFns;

use crate::decimal::{
    is_digit, lemma_parse_repr, lemma_repr_digits, parse_digits, push_decimal, read_digits, repr,
};
use crate::text::{chars_of, lower, lower_chars};

verus! {

/// Which ability of a unit an omicron sits on. The number tells abilities
/// of one sort apart, counted from one in the order the unit lists them.
#[derive(Debug, Clone, Copy, PartialEq, Eq, Structural, Hash)]
pub enum Omicron {
    Basic,
    Special(u8),
    Lead,
    Unique(u8),
}

/// The omicrons that a mission asks of one unit.
#[derive(Debug, Hash)]
pub struct Omicrons {
    /// Id of the unit that the omicrons belong to.
    pub unit: String,
    /// The abilities that need the upgrade.
    pub omis: Vec<Omicron>,
}

/// The mathematical content of an [`Omicrons`] entry.
pub struct OmicronsView {
    pub unit: Seq<char>,
    pub omis: Seq<Omicron>,
}

impl View for Omicrons {
    type V = OmicronsView;

    open spec fn view(&self) -> OmicronsView {
        OmicronsView { unit: self.unit@, omis: self.omis@ }
    }
}

impl DeepView for Omicrons {
    type V = OmicronsView;

    open spec fn deep_view(&self) -> OmicronsView {
        self@
    }
}

impl Clone for Omicrons {
    fn clone(&self) -> (r: Self)
        ensures
            r@ == self@,
    {
        let omis = self.omis.clone();
        assert(omis@ =~= self.omis@);
        Omicrons { unit: self.unit.clone(), omis }
    }
}

/// Why a text is no ability tag.
#[derive(Debug, Clone, Copy, PartialEq, Eq, Structural)]
pub enum OmicronError {
    /// The text names none of the four sorts of ability.
    InvalidVariant,
    /// The text names a special ability but no number of it.
    SpecialNumber,
    /// The text names a unique ability but no number of it.
    UniqueNumber,
}

/// The largest number that a tag can carry.
pub open spec fn max_ordinal() -> nat {
    255
}

/// The ability tag that a text denotes. Case does not matter. `b` is the
/// basic and `l` the leader ability; a text that begins with `s` or `u` is a
/// special or unique ability, numbered by the run of digits that follows
/// that one letter. Anything but digits after the letter, a second letter
/// or a sign included, is no number.
pub open spec fn parse_tag(text: Seq<char>) -> Result<Omicron, OmicronError> {
    let t = lower(text);
    if t == seq!['b'] {
        Ok(Omicron::Basic)
    } else if t == seq!['l'] {
        Ok(Omicron::Lead)
    } else if t.len() > 0 && t[0] == 's' {
        match parse_digits(t.drop_first(), max_ordinal()) {
            Some(n) => Ok(Omicron::Special(n as u8)),
            None => Err(OmicronError::SpecialNumber),
        }
    } else if t.len() > 0 && t[0] == 'u' {
        match parse_digits(t.drop_first(), max_ordinal()) {
            Some(n) => Ok(Omicron::Unique(n as u8)),
            None => Err(OmicronError::UniqueNumber),
        }
    } else {
        Err(OmicronError::InvalidVariant)
    }
}

/// The compact text of an ability tag.
pub open spec fn tag_text(tag: Omicron) -> Seq<char> {
    match tag {
        Omicron::Basic => seq!['b'],
        Omicron::Lead => seq!['l'],
        Omicron::Special(n) => seq!['s'] + repr(n as nat),
        Omicron::Unique(n) => seq!['u'] + repr(n as nat),
    }
}

/// The text that a tag is shown as.
pub open spec fn tag_label(tag: Omicron) -> Seq<char> {
    match tag {
        Omicron::Basic => "Basic"@,
        Omicron::Lead => "Lead"@,
        Omicron::Special(n) => "Special "@ + repr(n as nat),
        Omicron::Unique(n) => "Unique "@ + repr(n as nat),
    }
}

/// The compact text of a tag denotes that tag.
pub proof fn lemma_tag_roundtrip(tag: Omicron)
    ensures
        parse_tag(tag_text(tag)) == Ok::<Omicron, OmicronError>(tag),
{
    let text = tag_text(tag);
    match tag {
        Omicron::Basic => {
            assert(lower(text) =~= seq!['b']);
        },
        Omicron::Lead => {
            assert(lower(text) =~= seq!['l']);
            assert(seq!['l'][0] != seq!['b'][0]);
        },
        Omicron::Special(n) => {
            lemma_numbered_roundtrip('s', n);
        },
        Omicron::Unique(n) => {
            lemma_numbered_roundtrip('u', n);
        },
    }
}

/// A lower-case letter followed by the digits of `n` is unchanged by case
/// folding, is longer than one character, and gives back the digits of `n`
/// once the letter is taken off.
proof fn lemma_numbered_roundtrip(letter: char, n: u8)
    requires
        letter == 's' || letter == 'u',
    ensures
        ({
            let text = seq![letter] + repr(n as nat);
            &&& lower(text) == text
            &&& text.len() > 1
            &&& text[0] == letter
            &&& text.drop_first() == repr(n as nat)
            &&& parse_digits(repr(n as nat), max_ordinal()) == Some(n as nat)
        }),
{
    let digits = repr(n as nat);
    let text = seq![letter] + digits;
    lemma_repr_digits(n as nat);
    lemma_parse_repr(n as nat, max_ordinal());
    assert forall|i: int| 0 <= i < text.len() implies lower(text)[i] == text[i] by {
        if i > 0 {
            assert(text[i] == digits[i - 1]);
            assert(is_digit(digits[i - 1]));
        }
    }
    assert(lower(text) =~= text);
    assert(text.drop_first() =~= digits);
}

/// Case does not matter to what a text denotes.
pub proof fn lemma_tag_ignores_case(a: Seq<char>, b: Seq<char>)
    requires
        lower(a) == lower(b),
    ensures
        parse_tag(a) == parse_tag(b),
{
}

impl OmicronError {
    /// The message that the error is reported with.
    pub open spec fn message_text(self) -> Seq<char> {
        match self {
            OmicronError::InvalidVariant => "invalid ability variant"@,
            OmicronError::SpecialNumber => "failed to parse special num"@,
            OmicronError::UniqueNumber => "failed to parse unique num"@,
        }
    }

    /// The message that the error is reported with.
    pub fn message(&self) -> (r: String)
        ensures
            r@ == self.message_text(),
    {
        match self {
            OmicronError::InvalidVariant => "invalid ability variant".to_owned(),
            OmicronError::SpecialNumber => "failed to parse special num".to_owned(),
            OmicronError::UniqueNumber => "failed to parse unique num".to_owned(),
        }
    }
}

impl Omicron {
    /// Reads an ability tag from its compact text.
    pub fn from_id(text: &str) -> (r: Result<Omicron, OmicronError>)
        ensures
            r == parse_tag(text@),
    {
        let raw = chars_of(text);
        let t = lower_chars(&raw);
        if t.len() == 1 && t[0] == 'b' {
            assert(t@ =~= seq!['b']);
            return Ok(Omicron::Basic);
        }
        if t.len() == 1 && t[0] == 'l' {
            assert(t@ =~= seq!['l']);
            return Ok(Omicron::Lead);
        }
        if t.len() > 0 && t[0] == 's' {
            assert(t@.skip(1) =~= t@.drop_first());
            return match read_digits(&t, 1, 255) {
                Some(n) => Ok(Omicron::Special(n as u8)),
                None => Err(OmicronError::SpecialNumber),
            };
        }
        if t.len() > 0 && t[0] == 'u' {
            assert(t@.skip(1) =~= t@.drop_first());
            return match read_digits(&t, 1, 255) {
                Some(n) => Ok(Omicron::Unique(n as u8)),
                None => Err(OmicronError::UniqueNumber),
            };
        }
        Err(OmicronError::InvalidVariant)
    }

    /// Writes the tag as its compact text.
    pub fn to_id(&self) -> (r: String)
        ensures
            r@ == tag_text(*self),
    {
        proof {
            reveal_strlit("b");
            reveal_strlit("l");
            reveal_strlit("s");
            reveal_strlit("u");
        }
        match self {
            Omicron::Basic => {
                let r = "b".to_owned();
                assert(r@ =~= seq!['b']);
                r
            },
            Omicron::Lead => {
                let r = "l".to_owned();
                assert(r@ =~= seq!['l']);
                r
            },
            Omicron::Special(n) => {
                let mut r = "s".to_owned();
                assert(r@ =~= seq!['s']);
                push_decimal(&mut r, *n as u64);
                r
            },
            Omicron::Unique(n) => {
                let mut r = "u".to_owned();
                assert(r@ =~= seq!['u']);
                push_decimal(&mut r, *n as u64);
                r
            },
        }
    }

    /// The text that the tag is shown as.
    pub fn to_string(&self) -> (r: String)
        ensures
            r@ == tag_label(*self),
    {
        match self {
            Omicron::Basic => "Basic".to_owned(),
            Omicron::Lead => "Lead".to_owned(),
            Omicron::Special(n) => {
                let mut r = "Special ".to_owned();
                push_decimal(&mut r, *n as u64);
                r
            },
            Omicron::Unique(n) => {
                let mut r = "Unique ".to_owned();
                push_decimal(&mut r, *n as u64);
                r
            },
        }
    }
}

} // verus!
