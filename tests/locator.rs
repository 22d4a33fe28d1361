use maidenhead::locator::{
    is_valid_maidenhead, maidenhead_to_lat_long, Coordinate, Locator, LocatorError,
};

fn convert(s: &str) -> Result<Coordinate, LocatorError> {
    maidenhead_to_lat_long(s.to_string())
}

fn at(latitude_e4: i32, longitude_e4: i32) -> Result<Coordinate, LocatorError> {
    Ok(Coordinate { latitude_e4, longitude_e4 })
}

#[test]
fn en80tu_converts_to_cell_corner() {
    assert_eq!(convert("EN80TU"), at(416666, -824166));
}

#[test]
fn converts_deterministically() {
    let first = convert("EN80TU");
    for _ in 0..5 {
        assert_eq!(convert("EN80TU"), first);
    }
    assert_eq!(convert("109TUX"), convert("109TUX"));
}

#[test]
fn canonical_form_converts_like_input() {
    assert_eq!(convert("en80tuxyz"), convert("EN80TU"));
}

#[test]
fn excess_characters_ignored() {
    assert_eq!(convert("EN80TUXYZ"), convert("EN80TU"));
    assert_eq!(convert("EN80TU!!"), at(416666, -824166));
    assert_eq!(convert("EN80TUé"), at(416666, -824166));
}

#[test]
fn square_is_padded_with_ll() {
    assert_eq!(convert("EN80"), at(409166, -830833));
    assert_eq!(convert("EN80"), convert("EN80LL"));
}

#[test]
fn digit_in_field_rejected() {
    assert_eq!(convert("109TUX"), Err(LocatorError::InvalidLocator));
}

#[test]
fn wrong_class_at_each_position_rejected() {
    for bad in ["SN80TU", "ES80TU", "ENA0TU", "EN8ATU", "EN80YU", "EN80TY", "EN80-U"] {
        assert_eq!(convert(bad), Err(LocatorError::InvalidLocator), "{}", bad);
    }
}

#[test]
fn short_inputs_rejected() {
    for short in ["", "E", "EN", "EN8"] {
        assert_eq!(convert(short), Err(LocatorError::InvalidLocator), "{}", short);
    }
}

#[test]
fn five_characters_rejected() {
    assert_eq!(convert("EN80T"), Err(LocatorError::InvalidLocator));
}

#[test]
fn lower_case_accepted() {
    assert_eq!(convert("en80tu"), convert("EN80TU"));
    assert_eq!(convert("eN80Tu"), at(416666, -824166));
}

#[test]
fn non_ascii_rejected() {
    assert_eq!(convert("EN80TÜ"), Err(LocatorError::InvalidLocator));
}

#[test]
fn grid_corners() {
    assert_eq!(convert("AA00AA"), at(-900000, -1800000));
    assert_eq!(convert("RR99XX"), at(909166, 1799166));
    assert_eq!(convert("JJ00AA"), at(0, 0));
}

#[test]
fn top_latitude_band_reaches_ninety() {
    assert_eq!(convert("AR09AL"), at(899166, -1800000));
    assert_eq!(convert("AR09AM"), at(900000, -1800000));
}

#[test]
fn canonical_locators_in_range() {
    for l in ["AA00AA", "JJ55MM", "RQ99XX", "RR98XX", "RR99XL", "IO91WM"] {
        let c = convert(l).unwrap();
        assert!(-900000 <= c.latitude_e4 && c.latitude_e4 < 900000, "{}", l);
        assert!(-1800000 <= c.longitude_e4 && c.longitude_e4 < 1800000, "{}", l);
    }
}

#[test]
fn distinct_locators_share_a_coordinate() {
    assert_eq!(convert("EN80"), convert("en80ll"));
    assert_eq!(convert("IO91WM"), at(520000, -1666));
}

#[test]
fn validator_accepts_six_character_locators() {
    assert!(is_valid_maidenhead("EN80TU"));
    assert!(is_valid_maidenhead("RR99XX"));
    assert!(is_valid_maidenhead("AA00AA"));
}

#[test]
fn validator_rejects_four_and_five_characters() {
    assert!(!is_valid_maidenhead("EN80"));
    assert!(!is_valid_maidenhead("EN80T"));
}

#[test]
fn validator_agrees_with_conversion_on_canonical_length() {
    for s in ["EN80TU", "109TUX", "RR99XX", "EN80TY", "SN80TU"] {
        assert_eq!(is_valid_maidenhead(s), convert(s).is_ok(), "{}", s);
    }
}

#[test]
fn validator_rejects_bad_input() {
    assert!(!is_valid_maidenhead(""));
    assert!(!is_valid_maidenhead("EN8"));
    assert!(!is_valid_maidenhead("EN80TUX"));
    assert!(!is_valid_maidenhead("en80tu"));
    assert!(!is_valid_maidenhead("SN80"));
    assert!(!is_valid_maidenhead("EN80TY"));
    assert!(!is_valid_maidenhead("109TUX"));
}

#[test]
fn parse_gives_record() {
    let l = Locator::parse("EN80TU").unwrap();
    assert_eq!(
        l,
        Locator {
            lon_field: 4,
            lat_field: 13,
            lon_square: 8,
            lat_square: 0,
            lon_subsquare: 19,
            lat_subsquare: 20,
        }
    );
    assert_eq!(l.latitude_e4(), 416666);
    assert_eq!(l.longitude_e4(), -824166);
    assert_eq!(Locator::parse("EN8"), Err(LocatorError::InvalidLocator));
}
