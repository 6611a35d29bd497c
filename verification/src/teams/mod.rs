//! The roster: every phase of the event, and the search for missions by id.

pub mod mission;
pub mod omicron;
pub mod phase;
pub mod planet;
pub mod video;

use vstd::prelude::*;

use crate::teams::mission::{Mission, MissionView};
use crate::teams::phase::{Phase, PhaseView};
use crate::text::{chars_of, chars_start_with_ignore_case, lower};

verus! {

/// The roster of the event: its phases in order.
#[derive(Debug)]
pub struct Teams {
    pub phases: Vec<Phase>,
}

/// The mathematical content of a [`Teams`] roster.
pub struct TeamsView {
    pub phases: Seq<PhaseView>,
}

impl View for Teams {
    type V = TeamsView;

    open spec fn view(&self) -> TeamsView {
        TeamsView { phases: self.phases.deep_view() }
    }
}

/// The missions of the given phases that a search goes through, phase by
/// phase.
pub open spec fn roster(phases: Seq<PhaseView>) -> Seq<MissionView>
    decreases phases.len(),
{
    if phases.len() == 0 {
        Seq::empty()
    } else {
        roster(phases.drop_last()) + phases.last().missions()
    }
}

/// The missions among `missions` whose id begins with `query`, up to ASCII
/// case, in their order.
pub open spec fn matching(missions: Seq<MissionView>, query: Seq<char>) -> Seq<MissionView> {
    missions.filter(matcher(query))
}

/// The test that a search puts to a mission.
pub open spec fn matcher(query: Seq<char>) -> spec_fn(MissionView) -> bool {
    |m: MissionView| m.matches(query)
}

impl TeamsView {
    /// Every mission that a search goes through, in the order of the search.
    pub open spec fn missions(self) -> Seq<MissionView> {
        roster(self.phases)
    }

    /// What a search for `query` finds.
    pub open spec fn search(self, query: Seq<char>) -> Seq<MissionView> {
        matching(self.missions(), query)
    }
}

/// Two queries that differ in ASCII case only find the same missions.
pub proof fn lemma_search_ignores_case(teams: TeamsView, a: Seq<char>, b: Seq<char>)
    requires
        lower(a) == lower(b),
    ensures
        teams.search(a) == teams.search(b),
{
    let p = matcher(a);
    let q = matcher(b);
    assert forall|m: MissionView| #[trigger] p(m) == q(m) by {}
    assert(p =~= q);
}

/// The empty query finds every mission.
pub proof fn lemma_search_empty(teams: TeamsView)
    ensures
        teams.search(Seq::empty()) == teams.missions(),
{
    let p = matcher(Seq::<char>::empty());
    assert forall|m: MissionView| #[trigger] p(m) by {
        assert(lower(Seq::<char>::empty()) =~= Seq::<char>::empty());
        assert(Seq::<char>::empty().is_prefix_of(lower(m.id)));
    }
    lemma_filter_all(teams.missions(), p);
}

/// A filter that every element passes keeps the sequence as it is.
proof fn lemma_filter_all<T>(s: Seq<T>, p: spec_fn(T) -> bool)
    requires
        forall|x: T| #[trigger] p(x),
    ensures
        s.filter(p) == s,
    decreases s.len(),
{
    reveal(Seq::filter);
    if s.len() > 0 {
        lemma_filter_all(s.drop_last(), p);
        assert(s.drop_last().push(s.last()) =~= s);
    }
}

/// Every mission that a search finds matches the query, and every mission
/// of the roster that matches is found.
pub proof fn lemma_search_sound_complete(teams: TeamsView, query: Seq<char>)
    ensures
        forall|i: int|
            0 <= i < teams.search(query).len() ==> (#[trigger] teams.search(query)[i]).matches(
                query,
            ) && teams.missions().contains(teams.search(query)[i]),
        forall|i: int|
            0 <= i < teams.missions().len() && (#[trigger] teams.missions()[i]).matches(query)
                ==> teams.search(query).contains(teams.missions()[i]),
        teams.search(query).len() <= teams.missions().len(),
{
    broadcast use vstd::seq_lib::group_filter_ensures;

    let p = matcher(query);
    let all = teams.missions();
    assert forall|i: int| 0 <= i < all.filter(p).len() implies p(#[trigger] all.filter(p)[i])
        && all.contains(all.filter(p)[i]) by {
        all.lemma_filter_pred(p, i);
        assert(all.filter(p).contains(all.filter(p)[i]));
        all.lemma_filter_contains_rev(p, all.filter(p)[i]);
    }
    assert forall|i: int| 0 <= i < all.len() && p(#[trigger] all[i]) implies all.filter(
        p,
    ).contains(all[i]) by {
        all.lemma_filter_contains(p, i);
    }
    all.lemma_filter_len(p);
}

/// Appends to `found` the missions among `missions` that match `query`.
fn collect_matching(missions: &Vec<Mission>, query: &Vec<char>, found: &mut Vec<Mission>)
    ensures
        final(found).deep_view() == old(found).deep_view() + matching(
            missions.deep_view(),
            query@,
        ),
{
    let ghost p = matcher(query@);
    let ghost before = found.deep_view();
    let mut i: usize = 0;
    proof {
        reveal(Seq::filter);
        assert(missions.deep_view().take(0) =~= Seq::empty());
        assert(found.deep_view() =~= before + missions.deep_view().take(0).filter(p));
    }
    while i < missions.len()
        invariant
            i <= missions.len(),
            p == matcher(query@),
            found.deep_view() == before + missions.deep_view().take(i as int).filter(p),
        decreases missions.len() - i,
    {
        let id = chars_of(missions[i].id.as_str());
        let hit = chars_start_with_ignore_case(&id, query);
        let ghost seen = missions.deep_view().take(i as int);
        let ghost next = missions.deep_view().take(i + 1);
        let ghost was = found.deep_view();
        proof {
            reveal(Seq::filter);
            assert(next.drop_last() =~= seen);
            assert(next.last() == missions[i as int]@);
            assert(hit == p(next.last()));
        }
        if hit {
            found.push(missions[i].clone());
            assert(found.deep_view() =~= was.push(missions[i as int]@));
            assert(found.deep_view() =~= before + next.filter(p));
        }
        i += 1;
    }
    assert(missions.deep_view().take(i as int) =~= missions.deep_view());
}

impl Teams {
    /// The roster of the given phases, in the given order.
    pub fn load(phases: Vec<Phase>) -> (teams: Self)
        ensures
            teams.phases == phases,
    {
        Teams { phases }
    }

    /// The phase of the given number, counted from one, or nothing where
    /// the roster has no phase of that number.
    pub fn phase(&self, number: usize) -> (r: Option<&Phase>)
        ensures
            1 <= number <= self.phases.len() ==> r == Some(&self.phases[number - 1]),
            number == 0 || number > self.phases.len() ==> r is None,
    {
        if number == 0 || number > self.phases.len() {
            None
        } else {
            Some(&self.phases[number - 1])
        }
    }

    /// The missions whose id begins with `s`, up to ASCII case: phase by
    /// phase, within a phase the dark, the mixed and then the light planet,
    /// within a planet in the order of its missions. The missions of bonus
    /// planets are not searched.
    pub fn search(&self, s: &str) -> (found: Vec<Mission>)
        ensures
            found.deep_view() == self@.search(s@),
    {
        let query = chars_of(s);
        let ghost p = matcher(s@);
        let mut found: Vec<Mission> = Vec::new();
        let mut i: usize = 0;
        proof {
            reveal(Seq::filter);
            assert(self@.phases.take(0) =~= Seq::empty());
            assert(found.deep_view() =~= matching(roster(self@.phases.take(0)), s@));
        }
        while i < self.phases.len()
            invariant
                i <= self.phases.len(),
                query@ == s@,
                p == matcher(s@),
                found.deep_view() == matching(roster(self@.phases.take(i as int)), s@),
            decreases self.phases.len() - i,
        {
            let phase = &self.phases[i];
            let ghost seen = roster(self@.phases.take(i as int));
            let ghost was = found.deep_view();
            collect_matching(&phase.dark.missions, &query, &mut found);
            collect_matching(&phase.mixed.missions, &query, &mut found);
            collect_matching(&phase.light.missions, &query, &mut found);
            proof {
                let next = self@.phases.take(i + 1);
                assert(next.drop_last() =~= self@.phases.take(i as int));
                assert(next.last() == phase@);
                assert(roster(next) == seen + phase@.missions());
                let d = phase@.dark.missions;
                let m = phase@.mixed.missions;
                let l = phase@.light.missions;
                Seq::filter_distributes_over_add(d, m, p);
                Seq::filter_distributes_over_add(d + m, l, p);
                Seq::filter_distributes_over_add(seen, d + m + l, p);
                assert(found.deep_view() =~= was + d.filter(p) + m.filter(p) + l.filter(p));
                assert(found.deep_view() =~= seen.filter(p) + (d + m + l).filter(p));
            }
            i += 1;
        }
        assert(self@.phases.take(i as int) =~= self@.phases);
        found
    }
}

} // verus!
