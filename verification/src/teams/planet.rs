//! A planet: a named group of missions.

use vstd::prelude::*;

use crate::teams::mission::{Mission, MissionView};
use crate::text::{eq_ignore_ascii_case, eq_ignore_case};

verus! {

/// A planet of a phase and its missions, in the order of the data file.
#[derive(Debug)]
pub struct Planet {
    pub name: String,
    pub notes: Option<Vec<String>>,
    pub missions: Vec<Mission>,
}

/// The mathematical content of a [`Planet`].
pub struct PlanetView {
    pub name: Seq<char>,
    pub notes: Option<Seq<Seq<char>>>,
    pub missions: Seq<MissionView>,
}

impl View for Planet {
    type V = PlanetView;

    open spec fn view(&self) -> PlanetView {
        PlanetView {
            name: self.name@,
            notes: self.notes.deep_view(),
            missions: self.missions.deep_view(),
        }
    }
}

impl DeepView for Planet {
    type V = PlanetView;

    open spec fn deep_view(&self) -> PlanetView {
        self@
    }
}

/// The name of the bonus planet that is shown second.
pub open spec fn mandalore() -> Seq<char> {
    "Mandalore"@
}

/// The name of the bonus planet that is shown third.
pub open spec fn zeffo() -> Seq<char> {
    "Zeffo"@
}

impl PlanetView {
    /// The planet is Mandalore, up to ASCII case.
    pub open spec fn is_mandalore(self) -> bool {
        eq_ignore_case(self.name, mandalore())
    }

    /// The planet is Zeffo, up to ASCII case.
    pub open spec fn is_zeffo(self) -> bool {
        eq_ignore_case(self.name, zeffo())
    }
}

/// No planet is both Mandalore and Zeffo.
pub proof fn lemma_reserved_names_differ(planet: PlanetView)
    ensures
        !(planet.is_mandalore() && planet.is_zeffo()),
{
    reveal_strlit("Mandalore");
    reveal_strlit("Zeffo");
    assert(crate::text::lower(mandalore()).len() == 9);
    assert(crate::text::lower(zeffo()).len() == 5);
}

impl Clone for Planet {
    fn clone(&self) -> (r: Self)
        ensures
            r@ == self@,
    {
        let notes = match &self.notes {
            Some(list) => {
                let copy = list.clone();
                assert(copy.deep_view() =~= list.deep_view());
                Some(copy)
            },
            None => None,
        };
        let missions = self.missions.clone();
        assert(missions.deep_view() =~= self.missions.deep_view());
        Planet { name: self.name.clone(), notes, missions }
    }
}

impl Planet {
    /// Whether the planet is Mandalore, up to ASCII case.
    pub fn is_mandalore(&self) -> (r: bool)
        ensures
            r == self@.is_mandalore(),
    {
        eq_ignore_ascii_case(self.name.as_str(), "Mandalore")
    }

    /// Whether the planet is Zeffo, up to ASCII case.
    pub fn is_zeffo(&self) -> (r: bool)
        ensures
            r == self@.is_zeffo(),
    {
        eq_ignore_ascii_case(self.name.as_str(), "Zeffo")
    }
}

} // verus!
