//! A phase: three planets and, in some phases, a bonus planet, with the
//! order in which they are shown.

use vstd::prelude::*;

use crate::teams::mission::MissionView;
use crate::teams::planet::{Planet, PlanetView};

verus! {

/// One phase of the event.
#[derive(Debug)]
pub struct Phase {
    pub dark: Planet,
    pub mixed: Planet,
    pub light: Planet,
    pub bonus: Option<Planet>,
}

/// The mathematical content of a [`Phase`].
pub struct PhaseView {
    pub dark: PlanetView,
    pub mixed: PlanetView,
    pub light: PlanetView,
    pub bonus: Option<PlanetView>,
}

impl View for Phase {
    type V = PhaseView;

    open spec fn view(&self) -> PhaseView {
        PhaseView {
            dark: self.dark@,
            mixed: self.mixed@,
            light: self.light@,
            bonus: self.bonus.deep_view(),
        }
    }
}

impl DeepView for Phase {
    type V = PhaseView;

    open spec fn deep_view(&self) -> PhaseView {
        self@
    }
}

/// Where the bonus planet of a phase is shown.
#[derive(Debug, Clone, Copy, PartialEq, Eq, Structural)]
pub enum BonusPlace {
    /// There is no bonus planet, or its name is none of the reserved ones:
    /// it is not shown.
    Hidden,
    /// Between the dark and the mixed planet.
    BeforeMixed,
    /// Between the mixed and the light planet.
    AfterMixed,
}

impl PhaseView {
    /// The missions that a search goes through: those of the dark, the
    /// mixed and the light planet, in that order. The bonus planet is left
    /// out.
    pub open spec fn missions(self) -> Seq<MissionView> {
        self.dark.missions + self.mixed.missions + self.light.missions
    }
}

impl Phase {
    /// Where the bonus planet is shown, which its name decides.
    pub open spec fn bonus_place(&self) -> BonusPlace {
        match self.bonus {
            Some(bonus) => if bonus@.is_mandalore() {
                BonusPlace::BeforeMixed
            } else if bonus@.is_zeffo() {
                BonusPlace::AfterMixed
            } else {
                BonusPlace::Hidden
            },
            None => BonusPlace::Hidden,
        }
    }

    /// The planets of the phase in the order in which they are shown.
    pub open spec fn order(&self) -> Seq<Planet> {
        match self.bonus_place() {
            BonusPlace::Hidden => seq![self.dark, self.mixed, self.light],
            BonusPlace::BeforeMixed => seq![self.dark, self.bonus->0, self.mixed, self.light],
            BonusPlace::AfterMixed => seq![self.dark, self.mixed, self.bonus->0, self.light],
        }
    }

    /// The number of columns that the phase is laid out in.
    pub open spec fn columns(&self) -> nat {
        if self.bonus is Some {
            4
        } else {
            3
        }
    }
}

/// Without a bonus planet the order is dark, mixed, light.
pub proof fn lemma_order_without_bonus(phase: Phase)
    requires
        phase.bonus is None,
    ensures
        phase.order() == seq![phase.dark, phase.mixed, phase.light],
{
}

/// A bonus planet named Mandalore comes second.
pub proof fn lemma_order_mandalore(phase: Phase)
    requires
        phase.bonus matches Some(bonus) && bonus@.is_mandalore(),
    ensures
        phase.order() == seq![phase.dark, phase.bonus->0, phase.mixed, phase.light],
{
}

/// A bonus planet named Zeffo comes third.
pub proof fn lemma_order_zeffo(phase: Phase)
    requires
        phase.bonus matches Some(bonus) && bonus@.is_zeffo(),
    ensures
        phase.order() == seq![phase.dark, phase.mixed, phase.bonus->0, phase.light],
{
    crate::teams::planet::lemma_reserved_names_differ(phase.bonus->0@);
}

/// A bonus planet of any other name is not shown: the order is that of a
/// phase without a bonus planet.
pub proof fn lemma_order_other_bonus(phase: Phase)
    requires
        phase.bonus matches Some(bonus) && !bonus@.is_mandalore() && !bonus@.is_zeffo(),
    ensures
        phase.order() == seq![phase.dark, phase.mixed, phase.light],
{
}

/// The order starts with the dark planet, ends with the light planet, has
/// three or four planets and never more than the phase has columns.
pub proof fn lemma_order_shape(phase: Phase)
    ensures
        3 <= phase.order().len() <= 4,
        phase.order().len() <= phase.columns(),
        phase.order().first() == phase.dark,
        phase.order().last() == phase.light,
        phase.order().len() == 4 <==> phase.bonus_place() != BonusPlace::Hidden,
{
}

impl Phase {
    /// The number of columns that the phase is laid out in: four where it
    /// has a bonus planet, shown or not, else three.
    pub fn num(&self) -> (n: usize)
        ensures
            n == self.columns(),
            self.order().len() <= n,
    {
        match self.bonus {
            Some(_) => 4,
            None => 3,
        }
    }

    /// Where the bonus planet is shown.
    pub fn place_of_bonus(&self) -> (place: BonusPlace)
        ensures
            place == self.bonus_place(),
    {
        match &self.bonus {
            Some(bonus) => {
                if bonus.is_mandalore() {
                    BonusPlace::BeforeMixed
                } else if bonus.is_zeffo() {
                    BonusPlace::AfterMixed
                } else {
                    BonusPlace::Hidden
                }
            },
            None => BonusPlace::Hidden,
        }
    }

    /// The planet that is shown at position `idx`, counted from zero, or
    /// nothing where fewer planets are shown.
    pub fn slot(&self, idx: usize) -> (r: Option<&Planet>)
        ensures
            idx < self.order().len() ==> r == Some(&self.order()[idx as int]),
            idx >= self.order().len() ==> r is None,
    {
        let place = self.place_of_bonus();
        match (idx, place) {
            (0, _) => Some(&self.dark),
            (1, BonusPlace::BeforeMixed) => self.bonus.as_ref(),
            (1, _) => Some(&self.mixed),
            (2, BonusPlace::BeforeMixed) => Some(&self.mixed),
            (2, BonusPlace::AfterMixed) => self.bonus.as_ref(),
            (2, BonusPlace::Hidden) => Some(&self.light),
            (3, BonusPlace::BeforeMixed) => Some(&self.light),
            (3, BonusPlace::AfterMixed) => Some(&self.light),
            _ => None,
        }
    }

    /// The planets of the phase in the order in which they are shown.
    pub fn planets(&self) -> (r: Vec<&Planet>)
        ensures
            r@.len() == self.order().len(),
            forall|i: int| 0 <= i < r@.len() ==> *r@[i] == self.order()[i],
    {
        let mut r: Vec<&Planet> = Vec::new();
        let mut it = self.iter();
        loop
            invariant
                it.phase() == self,
                it.position() == r@.len(),
                r@.len() <= self.order().len(),
                forall|i: int| 0 <= i < r@.len() ==> *r@[i] == self.order()[i],
            ensures
                r@.len() == self.order().len(),
                forall|i: int| 0 <= i < r@.len() ==> *r@[i] == self.order()[i],
            decreases self.order().len() - r@.len(),
        {
            match it.next() {
                Some(planet) => {
                    r.push(planet);
                },
                None => {
                    break ;
                },
            }
        }
        r
    }

    /// A walk over the planets of the phase in the order in which they are
    /// shown, from the start.
    pub fn iter(&self) -> (it: PhaseIterator<'_>)
        ensures
            it.phase() == self,
            it.position() == 0,
            it.remaining() == self.order(),
    {
        let it = PhaseIterator { phase: self, idx: 0 };
        assert(it.remaining() =~= self.order());
        it
    }
}

/// A walk over the planets of a phase. It ends after three or four
/// planets and stays at its end.
pub struct PhaseIterator<'a> {
    phase: &'a Phase,
    idx: usize,
}

impl<'a> PhaseIterator<'a> {
    /// The phase that is walked over.
    pub closed spec fn phase(&self) -> &'a Phase {
        self.phase
    }

    /// The number of planets handed out so far.
    pub closed spec fn position(&self) -> nat {
        self.idx as nat
    }

    /// The planets that are still to come.
    pub open spec fn remaining(&self) -> Seq<Planet> {
        self.phase().order().skip(self.position() as int)
    }

    /// The walk never goes past the last planet.
    #[verifier::type_invariant]
    spec fn within_order(&self) -> bool {
        self.idx <= self.phase.order().len()
    }

    /// Hands out the next planet, or nothing once all were handed out.
    pub fn next(&mut self) -> (r: Option<&'a Planet>)
        ensures
            final(self).phase() == old(self).phase(),
            final(self).position() <= final(self).phase().order().len(),
            old(self).remaining().len() > 0 ==> {
                &&& r == Some(&old(self).remaining()[0])
                &&& final(self).position() == old(self).position() + 1
                &&& final(self).remaining() == old(self).remaining().drop_first()
            },
            old(self).remaining().len() == 0 ==> {
                &&& r is None
                &&& final(self).position() == old(self).position()
            },
    {
        proof {
            use_type_invariant(&*self);
        }
        let r = self.phase.slot(self.idx);
        if r.is_some() {
            self.idx = self.idx + 1;
            assert(self.remaining() =~= old(self).remaining().drop_first());
        }
        r
    }
}

} // verus!
