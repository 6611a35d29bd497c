use swgoh_tb::{Ability, Lookup, SlotKind, Unit, Units};

fn unit(id: &str, name: &str) -> Unit {
    Unit {
        id: id.to_owned(),
        name: name.to_owned(),
        image: format!("{}.png", id.to_ascii_lowercase()),
        omicrons: vec![],
    }
}

fn catalog() -> Units {
    Units::load(vec![
        unit("VADER", "Darth Vader"),
        unit("Thrawn", "Grand Admiral Thrawn"),
        unit("vader", "A second Vader"),
        unit("unavailable", "A unit whose id is a reserved word"),
    ])
}

fn same(a: &Unit, b: &Unit) -> bool {
    a.id == b.id
        && a.name == b.name
        && a.image == b.image
        && a.omicrons.len() == b.omicrons.len()
        && a.omicrons.iter().zip(&b.omicrons).all(|(x, y)| x.id == y.id && x.name == y.name)
}

#[test]
fn the_empty_id_is_the_unavailable_slot() {
    let found = catalog().get("");
    assert!(same(&found, &Unit::unavailable()));
    assert_eq!(found.id, "unavailable");
    assert_eq!(found.name, "unavailable");
    assert_eq!(found.image, "icon-unavailable.png");
}

#[test]
fn the_placeholder_token_is_the_open_slot() {
    let units = catalog();
    for token in ["[ph]", "[PH]", "[Ph]"] {
        let found = units.get(token);
        assert!(same(&found, &Unit::placeholder()));
        assert_eq!(found.id, "[ph]");
        assert_eq!(found.name, "open spot");
        assert_eq!(found.image, "icon-placeholder.png");
    }
}

#[test]
fn an_unknown_id_is_the_missing_unit() {
    let found = catalog().get("nonexistent");
    assert!(same(&found, &Unit::missing()));
    assert_eq!(found.id, "");
    assert_eq!(found.name, "Unknown Unit");
    assert_eq!(found.image, "icon-missing.png");
}

#[test]
fn the_three_lookup_sentinels_differ() {
    let units = catalog();
    let unavailable = units.get("");
    let open = units.get("[ph]");
    let missing = units.get("nonexistent");
    assert!(!same(&unavailable, &open));
    assert!(!same(&unavailable, &missing));
    assert!(!same(&open, &missing));
    assert!(!same(&Unit::forgot(), &missing));
}

#[test]
fn lookup_gives_the_same_record_twice() {
    let units = catalog();
    for id in ["", "[ph]", "nonexistent", "vader", "THRAWN", "Vader "] {
        assert!(same(&units.get(id), &units.get(id)));
    }
}

#[test]
fn lookup_ignores_ascii_case_and_takes_the_first_match() {
    let units = catalog();
    assert_eq!(units.get("vader").name, "Darth Vader");
    assert_eq!(units.get("Vader").name, "Darth Vader");
    assert_eq!(units.get("thrawn").name, "Grand Admiral Thrawn");
    assert_eq!(units.get("THRAWN").id, "Thrawn");
}

#[test]
fn lookup_does_not_trim_or_match_prefixes() {
    let units = catalog();
    assert_eq!(units.get("vade").name, "Unknown Unit");
    assert_eq!(units.get("vader ").name, "Unknown Unit");
    assert_eq!(units.get(" ").name, "Unknown Unit");
}

#[test]
fn lookup_folds_ascii_letters_only() {
    let units = Units::load(vec![unit("É1", "upper"), unit("é2", "lower")]);
    assert_eq!(units.get("É1").name, "upper");
    assert_eq!(units.get("é1").name, "Unknown Unit");
    assert_eq!(units.get("É2").name, "Unknown Unit");
}

#[test]
fn a_unit_with_a_reserved_id_is_found_by_it() {
    let found = catalog().get("UNAVAILABLE");
    assert_eq!(found.name, "A unit whose id is a reserved word");
}

#[test]
fn an_empty_catalog_still_answers() {
    let units = Units::load(vec![]);
    assert_eq!(units.get("vader").name, "Unknown Unit");
    assert_eq!(units.get("").name, "unavailable");
    assert_eq!(units.get("[ph]").name, "open spot");
}

#[test]
fn lookup_hands_out_a_copy_with_the_abilities() {
    let mut vader = unit("VADER", "Darth Vader");
    vader.insert_omicron("l", "Inspiring Through Fear");
    let units = Units::load(vec![vader]);
    let found = units.get("vader");
    assert_eq!(found.omicrons.len(), 1);
    assert_eq!(found.omicrons[0].id, "l");
    assert_eq!(found.omicrons[0].name, "Inspiring Through Fear");
}

#[test]
fn a_new_unit_waits_for_its_id() {
    let fresh = Unit::new("Darth Vader", "vader.png");
    assert_eq!(fresh.id, format!("# {}: add id", "todo".to_ascii_uppercase()));
    assert_eq!(fresh.name, "Darth Vader");
    assert_eq!(fresh.image, "vader.png");
    assert!(fresh.omicrons.is_empty());
}

#[test]
fn the_forgotten_slot_names_the_data_file() {
    let forgot = Unit::forgot();
    assert_eq!(forgot.id, "");
    assert_eq!(forgot.name, "forgot to add all spots in PhaseX.toml");
    assert_eq!(forgot.image, "icon-missing.png");
    assert!(forgot.omicrons.is_empty());
}

#[test]
fn an_ability_is_recorded_once() {
    let mut vader = unit("VADER", "Darth Vader");
    assert!(!vader.has_omicron("u1"));
    vader.insert_omicron("u1", "No Escape");
    vader.insert_omicron("l", "Inspiring Through Fear");
    vader.insert_omicron("u1", "Another name");
    assert_eq!(vader.omicrons.len(), 2);
    assert_eq!(vader.omicrons[0].id, "u1");
    assert_eq!(vader.omicrons[0].name, "No Escape");
    assert_eq!(vader.omicrons[1].id, "l");
    assert!(vader.has_omicron("u1"));
    assert!(vader.has_omicron("l"));
}

#[test]
fn abilities_are_told_apart_by_case() {
    let mut vader = unit("VADER", "Darth Vader");
    vader.insert_omicron("u1", "No Escape");
    assert!(!vader.has_omicron("U1"));
    vader.insert_omicron("U1", "Upper");
    assert_eq!(vader.omicrons.len(), 2);
    assert_eq!(vader.get_omicron("U1").name, "Upper");
    assert_eq!(vader.get_omicron("u1").name, "No Escape");
}

#[test]
fn an_unknown_ability_is_number_404() {
    let mut vader = unit("VADER", "Darth Vader");
    vader.insert_omicron("u1", "No Escape");
    let found = vader.get_omicron("s1");
    assert_eq!(found.id, "404");
    assert_eq!(found.name, "Unknown Ability");
    let empty = unit("X", "x").get_omicron("");
    assert_eq!(empty.id, "404");
}

#[test]
fn the_first_ability_of_an_id_is_handed_out() {
    let vader = Unit {
        id: "VADER".to_owned(),
        name: "Darth Vader".to_owned(),
        image: "vader.png".to_owned(),
        omicrons: vec![
            Ability { id: "u1".to_owned(), name: "first".to_owned() },
            Ability { id: "u1".to_owned(), name: "second".to_owned() },
        ],
    };
    assert_eq!(vader.get_omicron("u1").name, "first");
}

#[test]
fn the_portrait_lies_below_the_origin() {
    let vader = unit("VADER", "Darth Vader");
    assert_eq!(vader.image("https://example.org"), "https://example.org/assets/img/vader.png");
    assert_eq!(vader.image(""), "/assets/img/vader.png");
    assert_eq!(Unit::missing().image("x"), "x/assets/img/icon-missing.png");
}

#[test]
fn the_id_decides_what_a_record_stands_for() {
    assert_eq!(Unit::placeholder().slot_kind(), SlotKind::Open);
    assert_eq!(Unit::unavailable().slot_kind(), SlotKind::Unavailable);
    assert_eq!(Unit::missing().slot_kind(), SlotKind::Unit);
    assert_eq!(Unit::forgot().slot_kind(), SlotKind::Unit);
    assert_eq!(unit("[PH]", "x").slot_kind(), SlotKind::Open);
    assert_eq!(unit("Unavailable", "x").slot_kind(), SlotKind::Unavailable);
    assert_eq!(unit("VADER", "x").slot_kind(), SlotKind::Unit);
}

#[test]
fn units_are_found_by_their_exact_name() {
    let units = catalog();
    assert!(units.has_name("Darth Vader"));
    assert!(!units.has_name("darth vader"));
    assert!(!units.has_name(""));
    assert_eq!(units.last_named("Darth Vader"), Some(0));
    assert_eq!(units.last_named("Nobody"), None);
    let twice = Units::load(vec![unit("a", "Twin"), unit("b", "Other"), unit("c", "Twin")]);
    assert_eq!(twice.last_named("Twin"), Some(2));
    assert_eq!(twice.last_named("Other"), Some(1));
}

#[test]
fn a_clone_of_a_unit_holds_the_same_fields() {
    let mut vader = unit("VADER", "Darth Vader");
    vader.insert_omicron("u1", "No Escape");
    assert!(same(&vader.clone(), &vader));
}

#[test]
fn the_catalog_is_sorted_by_name() {
    let mut units = Units::load(vec![
        unit("c", "Chewbacca"),
        unit("a", "Ahsoka"),
        unit("z", "Zeb"),
        unit("b", "Boba"),
    ]);
    units.sort_by_name();
    let names: Vec<&str> = units.data.iter().map(|u| u.name.as_str()).collect();
    assert_eq!(names, ["Ahsoka", "Boba", "Chewbacca", "Zeb"]);
}

#[test]
fn sorting_goes_by_the_codes_of_the_characters() {
    let mut units = Units::load(vec![
        unit("1", "b"),
        unit("2", "B"),
        unit("3", "a"),
        unit("4", ""),
        unit("5", "ab"),
        unit("6", "Émile"),
        unit("7", "Z"),
        unit("8", "aB"),
    ]);
    units.sort_by_name();
    let names: Vec<&str> = units.data.iter().map(|u| u.name.as_str()).collect();
    assert_eq!(names, ["", "B", "Z", "a", "aB", "ab", "b", "Émile"]);
}

#[test]
fn sorting_keeps_units_of_one_name_in_their_order() {
    let mut units = Units::load(vec![
        unit("1", "Twin"),
        unit("2", "Other"),
        unit("3", "Twin"),
        unit("4", "Another"),
        unit("5", "Twin"),
    ]);
    units.sort_by_name();
    let ids: Vec<&str> = units.data.iter().map(|u| u.id.as_str()).collect();
    assert_eq!(ids, ["4", "2", "1", "3", "5"]);
}

#[test]
fn sorting_agrees_with_the_standard_stable_sort() {
    let names = ["q", "Q", "é", "e", "ee", "", "é", "zz", "z", "a b", "a", "A", "𝄞", "\u{ffff}", "e"];
    let mut units = Units::load(
        names.iter().enumerate().map(|(i, n)| unit(&i.to_string(), n)).collect(),
    );
    let mut expected: Vec<(String, String)> =
        units.data.iter().map(|u| (u.id.clone(), u.name.clone())).collect();
    expected.sort_by(|a, b| a.1.cmp(&b.1));
    units.sort_by_name();
    let got: Vec<(String, String)> =
        units.data.iter().map(|u| (u.id.clone(), u.name.clone())).collect();
    assert_eq!(got, expected);
}

#[test]
fn sorting_an_empty_catalog_leaves_it_empty() {
    let mut units = Units::load(vec![]);
    units.sort_by_name();
    assert!(units.data.is_empty());
    let mut one = Units::load(vec![unit("a", "A")]);
    one.sort_by_name();
    assert_eq!(one.data.len(), 1);
}

#[test]
fn a_lookup_says_what_it_found() {
    let units = catalog();
    assert!(matches!(units.resolve(""), Lookup::Unavailable));
    assert!(matches!(units.resolve("[PH]"), Lookup::Placeholder));
    assert!(matches!(units.resolve("nonexistent"), Lookup::Unresolved));
    match units.resolve("thrawn") {
        Lookup::Found(unit) => assert_eq!(unit.name, "Grand Admiral Thrawn"),
        other => panic!("expected a unit, got {other:?}"),
    }
}

#[test]
fn the_outcome_of_a_lookup_has_its_record() {
    let units = catalog();
    for id in ["", "[ph]", "nonexistent", "VADER", "unavailable"] {
        assert!(same(&units.resolve(id).into_unit(), &units.get(id)));
    }
    assert!(same(&Lookup::Unresolved.into_unit(), &Unit::missing()));
    assert!(same(&Lookup::Placeholder.into_unit(), &Unit::placeholder()));
    assert!(same(&Lookup::Unavailable.into_unit(), &Unit::unavailable()));
}

#[test]
fn duplicate_ids_are_noticed() {
    assert!(!catalog().has_unique_ids());
    assert!(Units::load(vec![]).has_unique_ids());
    assert!(Units::load(vec![unit("a", "A")]).has_unique_ids());
    assert!(Units::load(vec![unit("a", "A"), unit("b", "A"), unit("ab", "A")]).has_unique_ids());
    assert!(!Units::load(vec![unit("a", "A"), unit("b", "B"), unit("A", "C")]).has_unique_ids());
    assert!(!Units::load(vec![unit("", "A"), unit("", "B")]).has_unique_ids());
    assert!(Units::load(vec![unit("é", "A"), unit("É", "B")]).has_unique_ids());
}

#[test]
fn in_a_catalog_without_duplicates_every_id_finds_its_unit() {
    let mut units = Units::load(vec![unit("c", "C"), unit("B", "B"), unit("a", "A")]);
    assert!(units.has_unique_ids());
    for i in 0..units.data.len() {
        let id = units.data[i].id.clone();
        assert!(same(&units.get(&id), &units.data[i]));
    }
    units.sort_by_name();
    assert!(units.has_unique_ids());
    assert_eq!(units.get("b").name, "B");
}
