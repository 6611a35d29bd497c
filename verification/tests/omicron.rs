use swgoh_tb::{Omicron, OmicronError, Omicrons};

#[test]
fn special_tag_round_trip() {
    let text = Omicron::Special(3).to_id();
    assert_eq!(text, "s3");
    assert_eq!(Omicron::from_id(&text), Ok(Omicron::Special(3)));
}

#[test]
fn every_kind_of_tag_round_trips() {
    for tag in [
        Omicron::Basic,
        Omicron::Lead,
        Omicron::Special(0),
        Omicron::Special(1),
        Omicron::Special(255),
        Omicron::Unique(0),
        Omicron::Unique(9),
        Omicron::Unique(10),
        Omicron::Unique(255),
    ] {
        assert_eq!(Omicron::from_id(&tag.to_id()), Ok(tag));
    }
}

#[test]
fn every_ordinal_round_trips() {
    for n in 0..=u8::MAX {
        assert_eq!(Omicron::from_id(&Omicron::Special(n).to_id()), Ok(Omicron::Special(n)));
        assert_eq!(Omicron::from_id(&Omicron::Unique(n).to_id()), Ok(Omicron::Unique(n)));
    }
}

#[test]
fn compact_text_of_each_kind() {
    assert_eq!(Omicron::Basic.to_id(), "b");
    assert_eq!(Omicron::Lead.to_id(), "l");
    assert_eq!(Omicron::Special(12).to_id(), "s12");
    assert_eq!(Omicron::Unique(200).to_id(), "u200");
}

#[test]
fn malformed_tags_fail_distinctly() {
    assert_eq!(Omicron::from_id("x"), Err(OmicronError::InvalidVariant));
    assert_eq!(Omicron::from_id("s"), Err(OmicronError::SpecialNumber));
    assert_eq!(Omicron::from_id("u9a"), Err(OmicronError::UniqueNumber));
}

#[test]
fn tags_are_read_in_any_case() {
    assert_eq!(Omicron::from_id("b"), Ok(Omicron::Basic));
    assert_eq!(Omicron::from_id("B"), Ok(Omicron::Basic));
    assert_eq!(Omicron::from_id("l"), Ok(Omicron::Lead));
    assert_eq!(Omicron::from_id("L"), Ok(Omicron::Lead));
    assert_eq!(Omicron::from_id("S2"), Ok(Omicron::Special(2)));
    assert_eq!(Omicron::from_id("U1"), Ok(Omicron::Unique(1)));
}

#[test]
fn empty_and_foreign_texts_are_no_variant() {
    assert_eq!(Omicron::from_id(""), Err(OmicronError::InvalidVariant));
    assert_eq!(Omicron::from_id("3"), Err(OmicronError::InvalidVariant));
    assert_eq!(Omicron::from_id("basic"), Err(OmicronError::InvalidVariant));
    assert_eq!(Omicron::from_id("bb"), Err(OmicronError::InvalidVariant));
    assert_eq!(Omicron::from_id("lead"), Err(OmicronError::InvalidVariant));
    assert_eq!(Omicron::from_id(" s1"), Err(OmicronError::InvalidVariant));
    assert_eq!(Omicron::from_id("é"), Err(OmicronError::InvalidVariant));
}

#[test]
fn only_digits_may_follow_the_letter() {
    assert_eq!(Omicron::from_id("ss3"), Err(OmicronError::SpecialNumber));
    assert_eq!(Omicron::from_id("sS3"), Err(OmicronError::SpecialNumber));
    assert_eq!(Omicron::from_id("SS3"), Err(OmicronError::SpecialNumber));
    assert_eq!(Omicron::from_id("uuu7"), Err(OmicronError::UniqueNumber));
    assert_eq!(Omicron::from_id("uU7"), Err(OmicronError::UniqueNumber));
    assert_eq!(Omicron::from_id("su3"), Err(OmicronError::SpecialNumber));
    assert_eq!(Omicron::from_id("us3"), Err(OmicronError::UniqueNumber));
    assert_eq!(Omicron::from_id("ss"), Err(OmicronError::SpecialNumber));
    assert_eq!(Omicron::from_id("s3s"), Err(OmicronError::SpecialNumber));
}

#[test]
fn a_sign_is_no_digit() {
    assert_eq!(Omicron::from_id("s+3"), Err(OmicronError::SpecialNumber));
    assert_eq!(Omicron::from_id("u+0"), Err(OmicronError::UniqueNumber));
    assert_eq!(Omicron::from_id("s-1"), Err(OmicronError::SpecialNumber));
    assert_eq!(Omicron::from_id("s+"), Err(OmicronError::SpecialNumber));
    assert_eq!(Omicron::from_id("s++1"), Err(OmicronError::SpecialNumber));
    assert_eq!(Omicron::from_id("u-"), Err(OmicronError::UniqueNumber));
}

#[test]
fn the_number_is_an_unsigned_byte() {
    assert_eq!(Omicron::from_id("s0"), Ok(Omicron::Special(0)));
    assert_eq!(Omicron::from_id("s007"), Ok(Omicron::Special(7)));
    assert_eq!(Omicron::from_id("s255"), Ok(Omicron::Special(255)));
    assert_eq!(Omicron::from_id("s0255"), Ok(Omicron::Special(255)));
    assert_eq!(Omicron::from_id("s256"), Err(OmicronError::SpecialNumber));
    assert_eq!(Omicron::from_id("u99999999999999999999999"), Err(OmicronError::UniqueNumber));
    assert_eq!(Omicron::from_id("s 1"), Err(OmicronError::SpecialNumber));
    assert_eq!(Omicron::from_id("u1 "), Err(OmicronError::UniqueNumber));
    assert_eq!(Omicron::from_id("u"), Err(OmicronError::UniqueNumber));
    assert_eq!(Omicron::from_id("s1.0"), Err(OmicronError::SpecialNumber));
    assert_eq!(Omicron::from_id("s٣"), Err(OmicronError::SpecialNumber));
}

#[test]
fn a_run_of_digits_is_read_as_the_standard_number_parser_reads_it() {
    for text in ["", "0", "1", "12", "255", "256", "0x1", "1a", "٣", "000", "0256", "99999"] {
        let expected = match text.parse::<u8>() {
            Ok(n) => Ok(Omicron::Special(n)),
            Err(_) => Err(OmicronError::SpecialNumber),
        };
        assert_eq!(Omicron::from_id(&format!("s{text}")), expected);
    }
}

#[test]
fn tags_are_shown_by_their_full_name() {
    assert_eq!(Omicron::Basic.to_string(), "Basic");
    assert_eq!(Omicron::Lead.to_string(), "Lead");
    assert_eq!(Omicron::Special(2).to_string(), "Special 2");
    assert_eq!(Omicron::Unique(13).to_string(), "Unique 13");
}

#[test]
fn each_error_has_its_own_message() {
    assert_eq!(OmicronError::InvalidVariant.message(), "invalid ability variant");
    assert_eq!(OmicronError::SpecialNumber.message(), "failed to parse special num");
    assert_eq!(OmicronError::UniqueNumber.message(), "failed to parse unique num");
}

#[test]
fn an_entry_is_cloned_with_all_its_tags() {
    let entry = Omicrons {
        unit: "VADER".to_owned(),
        omis: vec![Omicron::Lead, Omicron::Unique(2)],
    };
    let copy = entry.clone();
    assert_eq!(copy.unit, "VADER");
    assert_eq!(copy.omis, vec![Omicron::Lead, Omicron::Unique(2)]);
}
