//! The teams of a territory battle guide: the roster of phases, planets and
//! missions, the catalog of units, and the rules by which the guide looks
//! them up and lays them out.

pub mod decimal;
pub mod find;
pub mod scrape;
pub mod site;
pub mod tab;
pub mod teams;
pub mod text;
pub mod units;

pub use tab::Tab;
pub use teams::mission::{FleetLineup, Mission};
pub use teams::omicron::{Omicron, OmicronError, Omicrons};
pub use teams::phase::{BonusPlace, Phase, PhaseIterator};
pub use teams::planet::Planet;
pub use teams::video::Video;
pub use teams::Teams;
pub use units::unit::{Ability, SlotKind, Unit};
pub use units::{Lookup, Units};
