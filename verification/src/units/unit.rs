//! One playable unit and its abilities.

use vstd::prelude::*;
use vstd::string::StringExecFns;

use crate::find::{
    first_where, lemma_first_where_absent, lemma_first_where_exists, lemma_first_where_found,
};
use crate::text::{chars_eq, chars_eq_ignore_case, chars_of, eq_ignore_case};

verus! {

/// An ability of a unit that can carry an omicron upgrade.
#[derive(Debug)]
pub struct Ability {
    pub id: String,
    pub name: String,
}

/// The mathematical content of an [`Ability`].
pub struct AbilityView {
    pub id: Seq<char>,
    pub name: Seq<char>,
}

impl View for Ability {
    type V = AbilityView;

    open spec fn view(&self) -> AbilityView {
        AbilityView { id: self.id@, name: self.name@ }
    }
}

impl DeepView for Ability {
    type V = AbilityView;

    open spec fn deep_view(&self) -> AbilityView {
        self@
    }
}

impl Clone for Ability {
    fn clone(&self) -> (r: Self)
        ensures
            r@ == self@,
    {
        Ability { id: self.id.clone(), name: self.name.clone() }
    }
}

/// A playable unit: its id, its display name, the file of its portrait and
/// the abilities of it that can carry an omicron.
#[derive(Debug)]
pub struct Unit {
    pub id: String,
    pub name: String,
    pub image: String,
    pub omicrons: Vec<Ability>,
}

/// The mathematical content of a [`Unit`].
pub struct UnitView {
    pub id: Seq<char>,
    pub name: Seq<char>,
    pub image: Seq<char>,
    pub omicrons: Seq<AbilityView>,
}

impl View for Unit {
    type V = UnitView;

    open spec fn view(&self) -> UnitView {
        UnitView {
            id: self.id@,
            name: self.name@,
            image: self.image@,
            omicrons: self.omicrons.deep_view(),
        }
    }
}

impl DeepView for Unit {
    type V = UnitView;

    open spec fn deep_view(&self) -> UnitView {
        self@
    }
}

/// The id that a freshly scraped unit carries until a person assigns one.
pub open spec fn unassigned_id() -> Seq<char> {
    "# TODO: add id"@
}

/// The record that stands for an ability that a unit does not have.
pub open spec fn unknown_ability() -> AbilityView {
    AbilityView { id: "404"@, name: "Unknown Ability"@ }
}

impl UnitView {
    /// The position of the first ability with the given id.
    pub open spec fn omicron_position(self, id: Seq<char>) -> Option<int> {
        first_where(self.omicrons, |a: AbilityView| a.id == id)
    }

    /// Some ability of the unit has the given id, letter for letter.
    pub open spec fn has_omicron(self, id: Seq<char>) -> bool {
        exists|i: int| 0 <= i < self.omicrons.len() && (#[trigger] self.omicrons[i]).id == id
    }

    /// The first ability with the given id, or the record that stands for
    /// an unknown ability.
    pub open spec fn get_omicron(self, id: Seq<char>) -> AbilityView {
        match self.omicron_position(id) {
            Some(i) => self.omicrons[i],
            None => unknown_ability(),
        }
    }

    /// The unit after an ability was recorded: unchanged where it already
    /// has one with that id, else with the new ability at the end.
    pub open spec fn with_omicron(self, id: Seq<char>, name: Seq<char>) -> UnitView {
        if self.has_omicron(id) {
            self
        } else {
            UnitView { omicrons: self.omicrons.push(AbilityView { id, name }), ..self }
        }
    }
}

/// Asking for an ability that the unit has gives an ability of the unit
/// with that id; asking for one that it has not gives the stand-in.
pub proof fn lemma_omicron_found(unit: UnitView, id: Seq<char>)
    ensures
        unit.has_omicron(id) ==> unit.get_omicron(id).id == id && unit.omicrons.contains(
            unit.get_omicron(id),
        ),
        !unit.has_omicron(id) ==> unit.get_omicron(id) == unknown_ability(),
{
    let p = |a: AbilityView| a.id == id;
    lemma_first_where_exists(unit.omicrons, p);
    if unit.has_omicron(id) {
        let i = choose|i: int| 0 <= i < unit.omicrons.len() && (#[trigger] unit.omicrons[i]).id == id;
        assert(p(unit.omicrons[i]));
    }
}

/// The record shown for an id that no unit carries.
pub open spec fn missing_view() -> UnitView {
    UnitView {
        id: Seq::empty(),
        name: "Unknown Unit"@,
        image: "icon-missing.png"@,
        omicrons: Seq::empty(),
    }
}

/// The record shown for a slot that is open to any unit.
pub open spec fn placeholder_view() -> UnitView {
    UnitView {
        id: "[ph]"@,
        name: "open spot"@,
        image: "icon-placeholder.png"@,
        omicrons: Seq::empty(),
    }
}

/// The record shown for a slot that cannot be filled.
pub open spec fn unavailable_view() -> UnitView {
    UnitView {
        id: "unavailable"@,
        name: "unavailable"@,
        image: "icon-unavailable.png"@,
        omicrons: Seq::empty(),
    }
}

/// The record shown for a slot that the mission data leaves out.
pub open spec fn forgot_view() -> UnitView {
    UnitView {
        id: Seq::empty(),
        name: "forgot to add all spots in PhaseX.toml"@,
        image: "icon-missing.png"@,
        omicrons: Seq::empty(),
    }
}

/// What a record stands for in a slot of a team.
#[derive(Debug, Clone, Copy, PartialEq, Eq, Structural)]
pub enum SlotKind {
    /// The slot is open to any unit.
    Open,
    /// The slot cannot be filled.
    Unavailable,
    /// The slot holds a unit, or a stand-in for one that is not known.
    Unit,
}

impl UnitView {
    /// What the record stands for in a slot, which its id decides: the
    /// placeholder token, the word `unavailable`, or anything else, all up
    /// to ASCII case.
    pub open spec fn slot_kind(self) -> SlotKind {
        if eq_ignore_case(self.id, "[ph]"@) {
            SlotKind::Open
        } else if eq_ignore_case(self.id, "unavailable"@) {
            SlotKind::Unavailable
        } else {
            SlotKind::Unit
        }
    }
}

/// The stand-in for an open slot is an open slot, the stand-in for a slot
/// that cannot be filled is one, and the stand-ins for a missing unit and
/// for a left-out slot count as units.
pub proof fn lemma_sentinel_kinds()
    ensures
        placeholder_view().slot_kind() == SlotKind::Open,
        unavailable_view().slot_kind() == SlotKind::Unavailable,
        missing_view().slot_kind() == SlotKind::Unit,
        forgot_view().slot_kind() == SlotKind::Unit,
{
    reveal_strlit("[ph]");
    reveal_strlit("unavailable");
    let empty = Seq::<char>::empty();
    assert(crate::text::lower(empty).len() == 0);
    assert(crate::text::lower("[ph]"@).len() == 4);
    assert(crate::text::lower("unavailable"@).len() == 11);
}

/// The four stand-in records differ from one another.
pub proof fn lemma_sentinels_distinct()
    ensures
        missing_view() != placeholder_view(),
        missing_view() != unavailable_view(),
        missing_view() != forgot_view(),
        placeholder_view() != unavailable_view(),
        placeholder_view() != forgot_view(),
        unavailable_view() != forgot_view(),
{
    reveal_strlit("Unknown Unit");
    reveal_strlit("open spot");
    reveal_strlit("unavailable");
    reveal_strlit("forgot to add all spots in PhaseX.toml");
    assert("Unknown Unit"@.len() == 12);
    assert("open spot"@.len() == 9);
    assert("unavailable"@.len() == 11);
    assert("forgot to add all spots in PhaseX.toml"@.len() == 38);
}

impl Unit {
    /// A unit fresh from the scraper: name and portrait are known, the id
    /// is still to be assigned and no ability is recorded.
    pub fn new(name: &str, image: &str) -> (unit: Self)
        ensures
            unit@ == (UnitView {
                id: unassigned_id(),
                name: name@,
                image: image@,
                omicrons: Seq::empty(),
            }),
    {
        let unit = Unit {
            id: "# TODO: add id".to_owned(),
            name: name.to_owned(),
            image: image.to_owned(),
            omicrons: Vec::new(),
        };
        assert(unit.omicrons.deep_view() =~= Seq::empty());
        unit
    }

    /// Records an ability, unless one with that id is recorded already.
    pub fn insert_omicron(&mut self, id: &str, name: &str)
        ensures
            final(self)@ == old(self)@.with_omicron(id@, name@),
    {
        if self.has_omicron(id) {
            return ;
        }
        self.omicrons.push(Ability { id: id.to_owned(), name: name.to_owned() });
        assert(self.omicrons.deep_view() =~= old(self).omicrons.deep_view().push(
            AbilityView { id: id@, name: name@ },
        ));
    }

    /// Whether an ability with that id is recorded.
    pub fn has_omicron(&self, id: &str) -> (r: bool)
        ensures
            r == self@.has_omicron(id@),
    {
        let wanted = chars_of(id);
        let mut i: usize = 0;
        while i < self.omicrons.len()
            invariant
                i <= self.omicrons.len(),
                wanted@ == id@,
                forall|j: int| 0 <= j < i ==> (#[trigger] self@.omicrons[j]).id != id@,
            decreases self.omicrons.len() - i,
        {
            let have = chars_of(self.omicrons[i].id.as_str());
            if chars_eq(&have, &wanted) {
                assert(self@.omicrons[i as int].id == id@);
                return true;
            }
            i += 1;
        }
        false
    }

    /// The first recorded ability with that id, or a stand-in with the id
    /// `404` where there is none.
    pub fn get_omicron(&self, id: &str) -> (r: Ability)
        ensures
            r@ == self@.get_omicron(id@),
    {
        let wanted = chars_of(id);
        let ghost p = |a: AbilityView| a.id == id@;
        let mut i: usize = 0;
        while i < self.omicrons.len()
            invariant
                i <= self.omicrons.len(),
                wanted@ == id@,
                p == (|a: AbilityView| a.id == id@),
                forall|j: int| 0 <= j < i ==> !p(#[trigger] self@.omicrons[j]),
            decreases self.omicrons.len() - i,
        {
            let have = chars_of(self.omicrons[i].id.as_str());
            if chars_eq(&have, &wanted) {
                proof {
                    assert(p(self@.omicrons[i as int]));
                    lemma_first_where_found(self@.omicrons, p, i as int);
                }
                return self.omicrons[i].clone();
            }
            i += 1;
        }
        proof {
            lemma_first_where_absent(self@.omicrons, p);
        }
        Ability { id: "404".to_owned(), name: "Unknown Ability".to_owned() }
    }

    /// What the record stands for in a slot of a team.
    pub fn slot_kind(&self) -> (r: SlotKind)
        ensures
            r == self@.slot_kind(),
    {
        let id = chars_of(self.id.as_str());
        if chars_eq_ignore_case(&id, &chars_of("[ph]")) {
            SlotKind::Open
        } else if chars_eq_ignore_case(&id, &chars_of("unavailable")) {
            SlotKind::Unavailable
        } else {
            SlotKind::Unit
        }
    }

    /// The address of the unit's portrait below `origin`.
    pub fn image(&self, origin: &str) -> (r: String)
        ensures
            r@ == origin@ + "/assets/img/"@ + self.image@,
    {
        let mut r = origin.to_owned();
        r.append("/assets/img/");
        r.append(self.image.as_str());
        r
    }

    /// The stand-in for an id that no unit carries.
    pub fn missing() -> (unit: Self)
        ensures
            unit@ == missing_view(),
    {
        let unit = Unit {
            id: String::new(),
            name: "Unknown Unit".to_owned(),
            image: "icon-missing.png".to_owned(),
            omicrons: Vec::new(),
        };
        assert(unit.omicrons.deep_view() =~= Seq::empty());
        unit
    }

    /// The stand-in for a slot that is open to any unit.
    pub fn placeholder() -> (unit: Self)
        ensures
            unit@ == placeholder_view(),
    {
        let unit = Unit {
            id: "[ph]".to_owned(),
            name: "open spot".to_owned(),
            image: "icon-placeholder.png".to_owned(),
            omicrons: Vec::new(),
        };
        assert(unit.omicrons.deep_view() =~= Seq::empty());
        unit
    }

    /// The stand-in for a slot that cannot be filled.
    pub fn unavailable() -> (unit: Self)
        ensures
            unit@ == unavailable_view(),
    {
        let unit = Unit {
            id: "unavailable".to_owned(),
            name: "unavailable".to_owned(),
            image: "icon-unavailable.png".to_owned(),
            omicrons: Vec::new(),
        };
        assert(unit.omicrons.deep_view() =~= Seq::empty());
        unit
    }

    /// The stand-in for a slot that the mission data leaves out.
    pub fn forgot() -> (unit: Self)
        ensures
            unit@ == forgot_view(),
    {
        let unit = Unit {
            id: String::new(),
            name: "forgot to add all spots in PhaseX.toml".to_owned(),
            image: "icon-missing.png".to_owned(),
            omicrons: Vec::new(),
        };
        assert(unit.omicrons.deep_view() =~= Seq::empty());
        unit
    }
}

impl Clone for Unit {
    fn clone(&self) -> (r: Self)
        ensures
            r@ == self@,
    {
        let omicrons = self.omicrons.clone();
        assert(omicrons.deep_view() =~= self.omicrons.deep_view());
        Unit {
            id: self.id.clone(),
            name: self.name.clone(),
            image: self.image.clone(),
            omicrons,
        }
    }
}

} // verus!
