use swgoh_tb::{Mission, Omicron, Omicrons, Video};

fn mission(name: &str, team: &[&str]) -> Mission {
    Mission {
        id: "3M".to_owned(),
        name: name.to_owned(),
        team: team.iter().map(|s| (*s).to_owned()).collect(),
        note: vec![],
        relic: None,
        omicrons: None,
        videos: None,
        modding: None,
    }
}

#[test]
fn a_squad_of_three_leaves_two_slots_empty() {
    let m = mission("Combat Mission", &["A", "B", "C"]);
    assert_eq!(m.expected_slots(), 5);
    assert_eq!(m.missing_slots(), 2);
}

#[test]
fn a_full_squad_leaves_no_slot_empty() {
    assert_eq!(mission("Combat Mission", &["A", "B", "C", "D", "E"]).missing_slots(), 0);
}

#[test]
fn an_empty_squad_leaves_five_slots_empty() {
    assert_eq!(mission("Combat Mission", &[]).missing_slots(), 5);
}

#[test]
fn a_crowded_squad_leaves_no_slot_empty() {
    assert_eq!(mission("Combat Mission", &["A", "B", "C", "D", "E", "F", "G"]).missing_slots(), 0);
}

#[test]
fn a_fleet_has_eight_slots() {
    let m = mission("Fleet", &["Cap", "S1", "S2"]);
    assert!(m.is_fleet());
    assert_eq!(m.expected_slots(), 8);
    assert_eq!(m.missing_slots(), 5);
    assert_eq!(mission("Fleet", &["1", "2", "3", "4", "5", "6", "7", "8"]).missing_slots(), 0);
    assert_eq!(mission("Fleet", &["1", "2", "3", "4", "5", "6", "7", "8", "9"]).missing_slots(), 0);
}

#[test]
fn only_the_exact_name_makes_a_fleet() {
    assert!(mission("Fleet", &[]).is_fleet());
    for name in ["fleet", "FLEET", "Fleet ", "Fleet Mission", ""] {
        let m = mission(name, &[]);
        assert!(!m.is_fleet());
        assert_eq!(m.expected_slots(), 5);
    }
}

#[test]
fn listed_and_missing_slots_fill_the_team() {
    for name in ["Fleet", "Squad"] {
        for len in 0..12 {
            let team: Vec<String> = (0..len).map(|i| i.to_string()).collect();
            let refs: Vec<&str> = team.iter().map(String::as_str).collect();
            let m = mission(name, &refs);
            assert_eq!(m.team.len() + m.missing_slots(), m.expected_slots().max(len));
        }
    }
}

#[test]
fn a_fleet_is_laid_out_by_role() {
    let m = mission("Fleet", &["Cap", "S1", "S2", "S3", "R1", "R2"]);
    let lineup = m.fleet_lineup().unwrap();
    assert_eq!(lineup.capital, "Cap");
    assert_eq!(lineup.starting, ["S1", "S2", "S3"]);
    assert_eq!(lineup.reinforcements, ["R1", "R2"]);
}

#[test]
fn a_short_fleet_has_no_reinforcements() {
    let m = mission("Fleet", &["Cap", "S1"]);
    let lineup = m.fleet_lineup().unwrap();
    assert_eq!(lineup.capital, "Cap");
    assert_eq!(lineup.starting, ["S1"]);
    assert!(lineup.reinforcements.is_empty());
    let alone = mission("Fleet", &["Cap"]);
    let lineup = alone.fleet_lineup().unwrap();
    assert_eq!(lineup.capital, "Cap");
    assert!(lineup.starting.is_empty());
    assert!(lineup.reinforcements.is_empty());
    let four = mission("Fleet", &["Cap", "S1", "S2", "S3"]);
    let lineup = four.fleet_lineup().unwrap();
    assert_eq!(lineup.starting.len(), 3);
    assert!(lineup.reinforcements.is_empty());
}

#[test]
fn a_long_fleet_keeps_every_reinforcement() {
    let m = mission("Fleet", &["C", "1", "2", "3", "4", "5", "6", "7", "8", "9"]);
    let lineup = m.fleet_lineup().unwrap();
    assert_eq!(lineup.starting, ["1", "2", "3"]);
    assert_eq!(lineup.reinforcements, ["4", "5", "6", "7", "8", "9"]);
}

#[test]
fn a_fleet_without_ships_has_no_lineup() {
    assert!(mission("Fleet", &[]).fleet_lineup().is_none());
}

#[test]
fn the_heading_names_the_mission_and_its_id() {
    let m = mission("Combat Mission", &[]);
    assert_eq!(m.title(), "Combat Mission (3M)");
    let mut bare = mission("", &[]);
    bare.id = String::new();
    assert_eq!(bare.title(), " ()");
}

#[test]
fn a_mission_asks_for_a_relic_level_or_seven_stars() {
    let mut m = mission("Combat Mission", &[]);
    assert_eq!(m.requirement(), "7* Stars");
    m.relic = Some(7);
    assert_eq!(m.requirement(), "Relic: 7+");
    m.relic = Some(0);
    assert_eq!(m.requirement(), "Relic: 0+");
    m.relic = Some(255);
    assert_eq!(m.requirement(), "Relic: 255+");
}

#[test]
fn omicrons_are_found_by_the_id_of_the_unit() {
    let mut m = mission("Combat Mission", &["VADER", "THRAWN"]);
    assert_eq!(m.omicrons_of("VADER"), None);
    m.omicrons = Some(vec![
        Omicrons { unit: "Vader".to_owned(), omis: vec![Omicron::Lead, Omicron::Unique(1)] },
        Omicrons { unit: "THRAWN".to_owned(), omis: vec![] },
        Omicrons { unit: "VADER".to_owned(), omis: vec![Omicron::Basic] },
    ]);
    assert_eq!(m.omicrons_of("VADER"), Some(vec![Omicron::Lead, Omicron::Unique(1)]));
    assert_eq!(m.omicrons_of("vader"), Some(vec![Omicron::Lead, Omicron::Unique(1)]));
    assert_eq!(m.omicrons_of("thrawn"), Some(vec![]));
    assert_eq!(m.omicrons_of("PALPATINE"), None);
    assert_eq!(m.omicrons_of(""), None);
}

#[test]
fn a_clone_of_a_mission_holds_the_same_fields() {
    let mut m = mission("Fleet", &["Cap", "S1"]);
    m.note = vec!["one".to_owned()];
    m.relic = Some(5);
    m.omicrons = Some(vec![Omicrons { unit: "Cap".to_owned(), omis: vec![Omicron::Special(2)] }]);
    m.videos = Some(vec![Video { source: "Maker".to_owned(), url: "https://example.org/v".to_owned() }]);
    m.modding = Some("https://example.org/m.png".to_owned());
    let c = m.clone();
    assert_eq!(c.id, m.id);
    assert_eq!(c.name, m.name);
    assert_eq!(c.team, m.team);
    assert_eq!(c.note, m.note);
    assert_eq!(c.relic, m.relic);
    assert_eq!(c.modding, m.modding);
    let omicrons = c.omicrons.unwrap();
    assert_eq!(omicrons.len(), 1);
    assert_eq!(omicrons[0].unit, "Cap");
    assert_eq!(omicrons[0].omis, [Omicron::Special(2)]);
    let videos = c.videos.unwrap();
    assert_eq!(videos.len(), 1);
    assert_eq!(videos[0].source, "Maker");
    assert_eq!(videos[0].url, "https://example.org/v");
}
