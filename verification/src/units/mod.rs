//! The catalog of playable units and the lookup of a unit by its id.

pub mod order;
pub mod unit;

use vstd::prelude::*;

use crate::find::{first_where, lemma_first_where_absent, lemma_first_where_found};
use crate::text::{chars_eq, chars_eq_ignore_case, chars_of, eq_ignore_case, lower, lower_chars};
use crate::units::unit::{
    lemma_sentinels_distinct, missing_view, placeholder_view, unavailable_view, Unit, UnitView,
};

verus! {

/// The catalog: every known unit, in the order of the catalog file.
#[derive(Debug)]
pub struct Units {
    pub data: Vec<Unit>,
}

/// The mathematical content of a [`Units`] catalog.
pub struct UnitsView {
    pub data: Seq<UnitView>,
}

impl View for Units {
    type V = UnitsView;

    open spec fn view(&self) -> UnitsView {
        UnitsView { data: self.data.deep_view() }
    }
}

/// What an id resolves to.
#[derive(Debug)]
pub enum Lookup {
    /// The unit of the catalog that carries the id.
    Found(Unit),
    /// The id is the token of a slot that is open to any unit.
    Placeholder,
    /// The id is empty: the slot cannot be filled.
    Unavailable,
    /// No unit of the catalog carries the id.
    Unresolved,
}

/// The mathematical content of a [`Lookup`].
pub enum LookupView {
    Found(UnitView),
    Placeholder,
    Unavailable,
    Unresolved,
}

impl View for Lookup {
    type V = LookupView;

    open spec fn view(&self) -> LookupView {
        match self {
            Lookup::Found(unit) => LookupView::Found(unit@),
            Lookup::Placeholder => LookupView::Placeholder,
            Lookup::Unavailable => LookupView::Unavailable,
            Lookup::Unresolved => LookupView::Unresolved,
        }
    }
}

impl LookupView {
    /// The record that is shown for the outcome of a lookup: the unit that
    /// was found, or the stand-in for what was not.
    pub open spec fn record(self) -> UnitView {
        match self {
            LookupView::Found(unit) => unit,
            LookupView::Placeholder => placeholder_view(),
            LookupView::Unavailable => unavailable_view(),
            LookupView::Unresolved => missing_view(),
        }
    }
}

impl Lookup {
    /// The record that is shown for the outcome of a lookup.
    pub fn into_unit(self) -> (unit: Unit)
        ensures
            unit@ == self@.record(),
    {
        match self {
            Lookup::Found(unit) => unit,
            Lookup::Placeholder => Unit::placeholder(),
            Lookup::Unavailable => Unit::unavailable(),
            Lookup::Unresolved => Unit::missing(),
        }
    }
}

/// The token that marks a slot as open to any unit.
pub open spec fn placeholder_token() -> Seq<char> {
    "[ph]"@
}

impl UnitsView {
    /// The position of the first unit whose id is `id` up to ASCII case.
    pub open spec fn position(self, id: Seq<char>) -> Option<int> {
        first_where(self.data, |u: UnitView| eq_ignore_case(u.id, id))
    }

    /// What an id resolves to. The empty id is the slot that cannot be
    /// filled, the placeholder token the open slot; any other id is the
    /// first unit that carries it, or is not resolved.
    pub open spec fn resolve(self, id: Seq<char>) -> LookupView {
        if id.len() == 0 {
            LookupView::Unavailable
        } else if eq_ignore_case(id, placeholder_token()) {
            LookupView::Placeholder
        } else {
            match self.position(id) {
                Some(i) => LookupView::Found(self.data[i]),
                None => LookupView::Unresolved,
            }
        }
    }

    /// The record that is shown for an id.
    pub open spec fn get(self, id: Seq<char>) -> UnitView {
        self.resolve(id).record()
    }

    /// Some unit of the catalog has the given name, letter for letter.
    pub open spec fn has_name(self, name: Seq<char>) -> bool {
        exists|i: int| 0 <= i < self.data.len() && (#[trigger] self.data[i]).name == name
    }

    /// `i` is the position of the last unit with the given name.
    pub open spec fn is_last_named(self, name: Seq<char>, i: int) -> bool {
        &&& 0 <= i < self.data.len()
        &&& self.data[i].name == name
        &&& forall|j: int| i < j < self.data.len() ==> (#[trigger] self.data[j]).name != name
    }

    /// No two units of the catalog have the same id up to ASCII case.
    pub open spec fn unique_ids(self) -> bool {
        forall|i: int, j: int|
            0 <= i < j < self.data.len() ==> !eq_ignore_case(
                (#[trigger] self.data[i]).id,
                (#[trigger] self.data[j]).id,
            )
    }
}

/// In a catalog without duplicate ids, the id of a unit resolves to that
/// unit, unless the id is empty or the placeholder token.
pub proof fn lemma_get_own_id(units: UnitsView, i: int)
    requires
        units.unique_ids(),
        0 <= i < units.data.len(),
        units.data[i].id.len() > 0,
        !eq_ignore_case(units.data[i].id, placeholder_token()),
    ensures
        units.get(units.data[i].id) == units.data[i],
{
    let id = units.data[i].id;
    let p = |u: UnitView| eq_ignore_case(u.id, id);
    assert(p(units.data[i]));
    assert forall|j: int| 0 <= j < i implies !p(#[trigger] units.data[j]) by {
        assert(!eq_ignore_case(units.data[j].id, units.data[i].id));
    }
    lemma_first_where_found(units.data, p, i);
}

/// An id that no unit carries resolves to the stand-in for a missing unit,
/// the empty id to the slot that cannot be filled, and the placeholder token
/// to the open slot; the three records differ from one another.
pub proof fn lemma_get_sentinels(units: UnitsView, id: Seq<char>)
    requires
        id.len() > 0,
        !eq_ignore_case(id, placeholder_token()),
        forall|j: int| 0 <= j < units.data.len() ==> !eq_ignore_case((#[trigger] units.data[j]).id, id),
    ensures
        units.get(Seq::empty()) == unavailable_view(),
        units.get(placeholder_token()) == placeholder_view(),
        units.get(id) == missing_view(),
        units.get(Seq::empty()) != units.get(placeholder_token()),
        units.get(Seq::empty()) != units.get(id),
        units.get(placeholder_token()) != units.get(id),
{
    lemma_sentinels_distinct();
    reveal_strlit("[ph]");
    let p = |u: UnitView| eq_ignore_case(u.id, id);
    lemma_first_where_absent(units.data, p);
}

impl Units {
    /// The catalog of the given units, in the given order.
    pub fn load(data: Vec<Unit>) -> (units: Self)
        ensures
            units.data == data,
    {
        Units { data }
    }

    /// Whether some unit of the catalog has the given name, letter for
    /// letter.
    pub fn has_name(&self, name: &str) -> (r: bool)
        ensures
            r == self@.has_name(name@),
    {
        self.last_named(name).is_some()
    }

    /// The position of the last unit with the given name, if there is one.
    pub fn last_named(&self, name: &str) -> (r: Option<usize>)
        ensures
            r is Some <==> self@.has_name(name@),
            r matches Some(i) ==> self@.is_last_named(name@, i as int),
    {
        let wanted = chars_of(name);
        let mut i: usize = self.data.len();
        while i > 0
            invariant
                i <= self.data.len(),
                wanted@ == name@,
                forall|j: int| i <= j < self.data.len() ==> (#[trigger] self@.data[j]).name != name@,
            decreases i,
        {
            i -= 1;
            let have = chars_of(self.data[i].name.as_str());
            if chars_eq(&have, &wanted) {
                assert(self@.data[i as int].name == name@);
                return Some(i);
            }
        }
        None
    }

    /// Resolves an id. Never fails: an id that no unit carries is reported
    /// as unresolved.
    pub fn resolve(&self, id: &str) -> (r: Lookup)
        ensures
            r@ == self@.resolve(id@),
    {
        let wanted = chars_of(id);
        if wanted.len() == 0 {
            return Lookup::Unavailable;
        }
        let token = chars_of("[ph]");
        if chars_eq_ignore_case(&wanted, &token) {
            return Lookup::Placeholder;
        }
        let ghost p = |u: UnitView| eq_ignore_case(u.id, id@);
        let mut i: usize = 0;
        while i < self.data.len()
            invariant
                i <= self.data.len(),
                wanted@ == id@,
                id@.len() > 0,
                !eq_ignore_case(id@, placeholder_token()),
                p == (|u: UnitView| eq_ignore_case(u.id, id@)),
                forall|j: int| 0 <= j < i ==> !p(#[trigger] self@.data[j]),
            decreases self.data.len() - i,
        {
            let have = chars_of(self.data[i].id.as_str());
            if chars_eq_ignore_case(&have, &wanted) {
                proof {
                    assert(p(self@.data[i as int]));
                    lemma_first_where_found(self@.data, p, i as int);
                }
                return Lookup::Found(self.data[i].clone());
            }
            i += 1;
        }
        proof {
            lemma_first_where_absent(self@.data, p);
        }
        Lookup::Unresolved
    }

    /// The record that is shown for an id. Never fails: an id that cannot
    /// be resolved gives a stand-in record.
    pub fn get(&self, id: &str) -> (unit: Unit)
        ensures
            unit@ == self@.get(id@),
    {
        self.resolve(id).into_unit()
    }

    /// Whether no two units of the catalog have the same id up to ASCII
    /// case.
    pub fn has_unique_ids(&self) -> (r: bool)
        ensures
            r == self@.unique_ids(),
    {
        let mut ids: Vec<Vec<char>> = Vec::new();
        let mut k: usize = 0;
        while k < self.data.len()
            invariant
                k <= self.data.len(),
                ids.len() == k,
                forall|n: int| 0 <= n < k ==> (#[trigger] ids@[n])@ == lower(self@.data[n].id),
            decreases self.data.len() - k,
        {
            let id = chars_of(self.data[k].id.as_str());
            ids.push(lower_chars(&id));
            k += 1;
        }
        let mut i: usize = 0;
        while i < ids.len()
            invariant
                i <= ids.len(),
                ids.len() == self.data.len(),
                forall|n: int| 0 <= n < ids.len() ==> (#[trigger] ids@[n])@ == lower(self@.data[n].id),
                forall|a: int, b: int|
                    0 <= a < i && a < b < self@.data.len() ==> !eq_ignore_case(
                        (#[trigger] self@.data[a]).id,
                        (#[trigger] self@.data[b]).id,
                    ),
            decreases ids.len() - i,
        {
            let mut j: usize = i + 1;
            while j < ids.len()
                invariant
                    i < j <= ids.len(),
                    ids.len() == self.data.len(),
                    forall|n: int|
                        0 <= n < ids.len() ==> (#[trigger] ids@[n])@ == lower(self@.data[n].id),
                    forall|b: int|
                        i < b < j ==> !eq_ignore_case(
                            self@.data[i as int].id,
                            (#[trigger] self@.data[b]).id,
                        ),
                decreases ids.len() - j,
            {
                if chars_eq(&ids[i], &ids[j]) {
                    assert(eq_ignore_case(self@.data[i as int].id, self@.data[j as int].id));
                    return false;
                }
                j += 1;
            }
            i += 1;
        }
        true
    }
}

} // verus!
