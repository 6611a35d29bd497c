use swgoh_tb::Tab;

#[test]
fn the_info_tab_is_named_in_any_case() {
    assert_eq!(Tab::from_str("info"), Ok(Tab::Info));
    assert_eq!(Tab::from_str("INFO"), Ok(Tab::Info));
    assert_eq!(Tab::from_str("Info"), Ok(Tab::Info));
}

#[test]
fn a_number_names_a_phase() {
    assert_eq!(Tab::from_str("1"), Ok(Tab::Phase(1)));
    assert_eq!(Tab::from_str("6"), Ok(Tab::Phase(6)));
    assert_eq!(Tab::from_str("0"), Ok(Tab::Phase(0)));
    assert_eq!(Tab::from_str("+4"), Ok(Tab::Phase(4)));
    assert_eq!(Tab::from_str("0012"), Ok(Tab::Phase(12)));
    assert_eq!(Tab::from_str(&usize::MAX.to_string()), Ok(Tab::Phase(usize::MAX)));
}

#[test]
fn any_other_text_is_the_first_phase() {
    for text in ["", "#3", "infos", " info", "three", "-1", "1.5", "+", "99999999999999999999999999"] {
        assert_eq!(Tab::from_str(text), Ok(Tab::Phase(1)));
    }
}

#[test]
fn tab_reading_agrees_with_the_standard_number_parser() {
    for text in ["7", "+7", "-7", "", "18446744073709551615", "18446744073709551616", "4294967296", "1_000"] {
        let expected = Tab::Phase(text.parse::<usize>().unwrap_or(1));
        assert_eq!(Tab::from_str(text), Ok(expected));
    }
}

#[test]
fn a_tab_is_written_as_it_is_read() {
    assert_eq!(Tab::Info.to_string(), "info");
    assert_eq!(Tab::Phase(1).to_string(), "1");
    assert_eq!(Tab::Phase(0).to_string(), "0");
    assert_eq!(Tab::Phase(42).to_string(), "42");
    assert_eq!(Tab::Phase(usize::MAX).to_string(), usize::MAX.to_string());
}

#[test]
fn written_tabs_read_back() {
    for tab in [Tab::Info, Tab::Phase(0), Tab::Phase(1), Tab::Phase(10), Tab::Phase(usize::MAX)] {
        assert_eq!(Tab::from_str(&tab.to_string()), Ok(tab));
    }
}

#[test]
fn the_first_phase_is_the_default() {
    assert_eq!(Tab::default(), Tab::Phase(1));
}
