//! The tab that the guide shows: the info page or one phase.

use vstd::prelude::*;

use crate::decimal::{
    format_decimal, is_digit, lemma_parse_repr, lemma_repr_digits, parse, parse_decimal, repr,
};
use crate::text::{chars_eq, chars_of, lower, lower_chars};

verus! {

/// The tab that the guide shows.
#[derive(Debug, Clone, Copy, PartialEq, Eq, Structural)]
pub enum Tab {
    /// The page that says what the guide is.
    Info,
    /// The phase of the given number, counted from one.
    Phase(usize),
}

/// The text that names the info tab.
pub open spec fn info_text() -> Seq<char> {
    "info"@
}

/// The tab that a text names. `info` in any case is the info tab; a
/// decimal number that fits the machine word is the phase of that number;
/// any other text is the first phase.
pub open spec fn tab_of(text: Seq<char>) -> Tab {
    if lower(text) == info_text() {
        Tab::Info
    } else {
        match parse(lower(text), usize::MAX as nat) {
            Some(n) => Tab::Phase(n as usize),
            None => Tab::Phase(1),
        }
    }
}

/// The text that names a tab.
pub open spec fn tab_text(tab: Tab) -> Seq<char> {
    match tab {
        Tab::Info => info_text(),
        Tab::Phase(n) => repr(n as nat),
    }
}

/// The text that names a tab names that tab.
pub proof fn lemma_tab_roundtrip(tab: Tab)
    ensures
        tab_of(tab_text(tab)) == tab,
{
    reveal_strlit("info");
    match tab {
        Tab::Info => {
            assert(lower(info_text()) =~= info_text());
        },
        Tab::Phase(n) => {
            let digits = repr(n as nat);
            lemma_repr_digits(n as nat);
            lemma_parse_repr(n as nat, usize::MAX as nat);
            assert forall|i: int| 0 <= i < digits.len() implies lower(digits)[i] == digits[i] by {
                assert(is_digit(digits[i]));
            }
            assert(lower(digits) =~= digits);
            assert(is_digit(digits[0]));
            assert(info_text()[0] == 'i');
        },
    }
}

impl Tab {
    /// Reads the tab that a text names. Never fails: a text that names
    /// none is the first phase.
    pub fn from_str(s: &str) -> (r: Result<Tab, String>)
        ensures
            r is Ok,
            r->Ok_0 == tab_of(s@),
    {
        let raw = chars_of(s);
        let text = lower_chars(&raw);
        let info = chars_of("info");
        if chars_eq(&text, &info) {
            return Ok(Tab::Info);
        }
        assert(text@.skip(0) =~= text@);
        match parse_decimal(&text, 0, usize::MAX as u64) {
            Some(n) => Ok(Tab::Phase(n as usize)),
            None => Ok(Tab::Phase(1)),
        }
    }

    /// The text that names the tab.
    pub fn to_string(&self) -> (r: String)
        ensures
            r@ == tab_text(*self),
    {
        match self {
            Tab::Info => "info".to_owned(),
            Tab::Phase(n) => format_decimal(*n as u64),
        }
    }
}

impl Default for Tab {
    /// The first phase.
    fn default() -> (r: Self)
        ensures
            r == Tab::Phase(1),
    {
        Tab::Phase(1)
    }
}

} // verus!
