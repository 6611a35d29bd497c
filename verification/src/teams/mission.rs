//! One mission: the team that clears it and what the team needs.

use vstd::prelude::*;
use vstd::slice::slice_subrange;
use vstd::string::StringExecFns;

use crate::decimal::{push_decimal, repr};
use crate::find::{first_where, lemma_first_where_absent, lemma_first_where_found};
use crate::teams::omicron::{Omicron, Omicrons, OmicronsView};
use crate::teams::video::{Video, VideoView};
use crate::text::{
    chars_eq_ignore_case, chars_of, chars_start_with_ignore_case, eq_ignore_case,
    starts_with_ignore_case, str_eq,
};

verus! {

/// A mission of a planet and the team that is to clear it.
#[derive(Debug, Hash)]
pub struct Mission {
    /// The id of the mission, by which orders in the game name it and by
    /// which the search finds it.
    pub id: String,
    /// The name of the mission.
    pub name: String,
    /// The ids of the units that form the team, in the order of their slots.
    pub team: Vec<String>,
    /// Notes on the mission, one paragraph each.
    pub note: Vec<String>,
    /// The relic level that the mission asks for. Fleet missions ask for
    /// seven stars instead and have none.
    pub relic: Option<u8>,
    /// The omicrons that the team needs.
    pub omicrons: Option<Vec<Omicrons>>,
    /// Videos that show the team.
    pub videos: Option<Vec<Video>>,
    /// The address of a picture that shows how to mod the team.
    pub modding: Option<String>,
}

/// The mathematical content of a [`Mission`].
pub struct MissionView {
    pub id: Seq<char>,
    pub name: Seq<char>,
    pub team: Seq<Seq<char>>,
    pub note: Seq<Seq<char>>,
    pub relic: Option<u8>,
    pub omicrons: Option<Seq<OmicronsView>>,
    pub videos: Option<Seq<VideoView>>,
    pub modding: Option<Seq<char>>,
}

impl View for Mission {
    type V = MissionView;

    open spec fn view(&self) -> MissionView {
        MissionView {
            id: self.id@,
            name: self.name@,
            team: self.team.deep_view(),
            note: self.note.deep_view(),
            relic: self.relic,
            omicrons: self.omicrons.deep_view(),
            videos: self.videos.deep_view(),
            modding: self.modding.deep_view(),
        }
    }
}

impl DeepView for Mission {
    type V = MissionView;

    open spec fn deep_view(&self) -> MissionView {
        self@
    }
}

/// The name that marks a mission as a fleet mission.
pub open spec fn fleet_name() -> Seq<char> {
    "Fleet"@
}

/// The number of slots of a squad.
pub const SQUAD_SLOTS: usize = 5;

/// The number of slots of a fleet: the capital ship, the starting line-up
/// and the reinforcements.
pub const FLEET_SLOTS: usize = 8;

/// The number of ships that start a fleet battle beside the capital ship.
pub const STARTING_SHIPS: usize = 3;

impl MissionView {
    /// The mission is fought with ships.
    pub open spec fn is_fleet(self) -> bool {
        self.name == fleet_name()
    }

    /// The number of slots that the team of the mission has to fill.
    pub open spec fn expected_slots(self) -> nat {
        if self.is_fleet() {
            FLEET_SLOTS as nat
        } else {
            SQUAD_SLOTS as nat
        }
    }

    /// The number of slots that the listed team leaves empty.
    pub open spec fn missing_slots(self) -> nat {
        if self.team.len() < self.expected_slots() {
            (self.expected_slots() - self.team.len()) as nat
        } else {
            0
        }
    }

    /// The id of the mission begins with `query`, up to ASCII case.
    pub open spec fn matches(self, query: Seq<char>) -> bool {
        starts_with_ignore_case(self.id, query)
    }

    /// The omicrons that the mission asks of the unit with the given id:
    /// those of the first entry for that unit, up to ASCII case.
    pub open spec fn omicrons_of(self, unit: Seq<char>) -> Option<Seq<Omicron>> {
        match self.omicrons {
            Some(list) => match first_where(list, |o: OmicronsView| eq_ignore_case(o.unit, unit)) {
                Some(i) => Some(list[i].omis),
                None => None,
            },
            None => None,
        }
    }

    /// The heading of the mission: its name, then its id in brackets.
    pub open spec fn title(self) -> Seq<char> {
        self.name + " ("@ + self.id + ")"@
    }

    /// What the mission asks of the units: a relic level, or seven stars.
    pub open spec fn requirement(self) -> Seq<char> {
        match self.relic {
            Some(level) => "Relic: "@ + repr(level as nat) + "+"@,
            None => "7* Stars"@,
        }
    }

    /// Where the starting line-up of a fleet ends: after the capital ship
    /// and at most three more ships.
    pub open spec fn starting_end(self) -> int {
        if self.team.len() < 1 + STARTING_SHIPS {
            self.team.len() as int
        } else {
            1 + STARTING_SHIPS
        }
    }
}

/// The roster of a fleet mission by role.
pub struct FleetLineup<'a> {
    /// The capital ship: the first entry of the roster.
    pub capital: &'a String,
    /// The ships that start the battle: up to three entries after the
    /// capital ship.
    pub starting: &'a [String],
    /// The ships that join later: everything after the starting line-up.
    pub reinforcements: &'a [String],
}

impl Clone for Mission {
    fn clone(&self) -> (r: Self)
        ensures
            r@ == self@,
    {
        let team = self.team.clone();
        assert(team.deep_view() =~= self.team.deep_view());
        let note = self.note.clone();
        assert(note.deep_view() =~= self.note.deep_view());
        let omicrons = match &self.omicrons {
            Some(list) => {
                let copy = list.clone();
                assert(copy.deep_view() =~= list.deep_view());
                Some(copy)
            },
            None => None,
        };
        let videos = match &self.videos {
            Some(list) => {
                let copy = list.clone();
                assert(copy.deep_view() =~= list.deep_view());
                Some(copy)
            },
            None => None,
        };
        let modding = match &self.modding {
            Some(url) => Some(url.clone()),
            None => None,
        };
        Mission {
            id: self.id.clone(),
            name: self.name.clone(),
            team,
            note,
            relic: self.relic,
            omicrons,
            videos,
            modding,
        }
    }
}

impl Mission {
    /// Whether the mission is fought with ships: its name is `Fleet`,
    /// letter for letter.
    pub fn is_fleet(&self) -> (r: bool)
        ensures
            r == self@.is_fleet(),
    {
        str_eq(self.name.as_str(), "Fleet")
    }

    /// The number of slots that the team has to fill: eight for a fleet,
    /// five for a squad.
    pub fn expected_slots(&self) -> (r: usize)
        ensures
            r == self@.expected_slots(),
            r == SQUAD_SLOTS || r == FLEET_SLOTS,
    {
        if self.is_fleet() {
            FLEET_SLOTS
        } else {
            SQUAD_SLOTS
        }
    }

    /// The number of slots that the listed team leaves empty. Together with
    /// the listed units they fill every slot that the mission has.
    pub fn missing_slots(&self) -> (r: usize)
        ensures
            r == self@.missing_slots(),
            self.team.len() + r >= self@.expected_slots(),
            self.team.len() >= self@.expected_slots() ==> r == 0,
            self.team.len() < self@.expected_slots() ==> self.team.len() + r
                == self@.expected_slots(),
    {
        let expected = self.expected_slots();
        if self.team.len() < expected {
            expected - self.team.len()
        } else {
            0
        }
    }

    /// Whether the id of the mission begins with `query`, up to ASCII case.
    pub fn matches(&self, query: &str) -> (r: bool)
        ensures
            r == self@.matches(query@),
    {
        let id = chars_of(self.id.as_str());
        let prefix = chars_of(query);
        chars_start_with_ignore_case(&id, &prefix)
    }

    /// The omicrons that the mission asks of the unit with the given id.
    pub fn omicrons_of(&self, unit: &str) -> (r: Option<Vec<Omicron>>)
        ensures
            match r {
                Some(omis) => self@.omicrons_of(unit@) == Some(omis@),
                None => self@.omicrons_of(unit@) is None,
            },
    {
        let list = match &self.omicrons {
            Some(list) => list,
            None => {
                return None;
            },
        };
        let wanted = chars_of(unit);
        let ghost p = |o: OmicronsView| eq_ignore_case(o.unit, unit@);
        let mut i: usize = 0;
        while i < list.len()
            invariant
                i <= list.len(),
                wanted@ == unit@,
                self.omicrons == Some(*list),
                p == (|o: OmicronsView| eq_ignore_case(o.unit, unit@)),
                forall|j: int| 0 <= j < i ==> !p(#[trigger] list.deep_view()[j]),
            decreases list.len() - i,
        {
            let have = chars_of(list[i].unit.as_str());
            if chars_eq_ignore_case(&have, &wanted) {
                proof {
                    assert(p(list.deep_view()[i as int]));
                    lemma_first_where_found(list.deep_view(), p, i as int);
                }
                let omis = list[i].omis.clone();
                assert(omis@ =~= list[i as int].omis@);
                return Some(omis);
            }
            i += 1;
        }
        proof {
            lemma_first_where_absent(list.deep_view(), p);
        }
        None
    }

    /// The heading of the mission: its name, then its id in brackets.
    pub fn title(&self) -> (r: String)
        ensures
            r@ == self@.title(),
    {
        let mut r = self.name.clone();
        r.append(" (");
        r.append(self.id.as_str());
        r.append(")");
        r
    }

    /// What the mission asks of the units: a relic level, or seven stars.
    pub fn requirement(&self) -> (r: String)
        ensures
            r@ == self@.requirement(),
    {
        match self.relic {
            Some(level) => {
                let mut r = "Relic: ".to_owned();
                push_decimal(&mut r, level as u64);
                r.append("+");
                r
            },
            None => "7* Stars".to_owned(),
        }
    }

    /// The roster of a fleet mission by role, or nothing where the roster
    /// is empty and so has no capital ship.
    pub fn fleet_lineup(&self) -> (r: Option<FleetLineup<'_>>)
        ensures
            r is None <==> self.team.len() == 0,
            r matches Some(lineup) ==> {
                &&& *lineup.capital == self.team@[0]
                &&& lineup.starting@ == self.team@.subrange(1, self@.starting_end())
                &&& lineup.reinforcements@ == self.team@.skip(self@.starting_end())
            },
    {
        let len = self.team.len();
        if len == 0 {
            return None;
        }
        let end: usize = if len < 1 + STARTING_SHIPS {
            len
        } else {
            1 + STARTING_SHIPS
        };
        let all = self.team.as_slice();
        let starting = slice_subrange(all, 1, end);
        let reinforcements = slice_subrange(all, end, len);
        assert(reinforcements@ =~= self.team@.skip(end as int));
        Some(FleetLineup { capital: &self.team[0], starting, reinforcements })
    }
}

} // verus!
