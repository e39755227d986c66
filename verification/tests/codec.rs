use natural_selection::dna::dna_to_values;
use natural_selection::dna::string_to_value;
use natural_selection::dna::value_to_string;
use natural_selection::dna::values_to_dna;
use natural_selection::Error;

#[test]
fn test_value_to_string() {
    assert_eq!(value_to_string(0), "a");
    assert_eq!(value_to_string(1000), "tm");
    assert_eq!(value_to_string(2000), "My");
    assert_eq!(value_to_string(((0.5 + 1000.0) * 1000.0) as u32), "hgau");
}

#[test]
fn test_string_to_value() {
    assert_eq!(string_to_value("a").unwrap(), 0);
    assert_eq!(string_to_value("tm").unwrap(), 1000);
    assert_eq!(string_to_value("My").unwrap(), 2000);
    assert_eq!(string_to_value("hgau").unwrap() as f64 / 1000.0 - 1000.0, 0.5);
}

#[test]
fn string_to_value_rejects_nonalphabetic() {
    assert_eq!(string_to_value("ab1"), Err(Error::InvalidDna));
    assert_eq!(string_to_value("a-b"), Err(Error::InvalidDna));
    assert_eq!(string_to_value("x y"), Err(Error::InvalidDna));
}

#[test]
fn single_token_round_trip() {
    for x in [0u32, 1, 25, 26, 51, 52, 2703, 1000500, 123456789, u32::MAX] {
        assert_eq!(string_to_value(&value_to_string(x)).unwrap(), x);
    }
}

#[test]
fn values_round_trip_through_dna() {
    let values: Vec<u32> = vec![0, 1, 51, 52, 1000500, 900000, u32::MAX];
    let text = values_to_dna(&values);
    assert_eq!(dna_to_values(&text).unwrap(), values);
}

#[test]
fn single_value_round_trip_through_dna() {
    let values: Vec<u32> = vec![424242];
    let text = values_to_dna(&values);
    assert_eq!(dna_to_values(&text).unwrap(), values);
}

#[test]
fn empty_string_decodes_to_single_zero() {
    assert_eq!(dna_to_values("").unwrap(), vec![0]);
}

#[test]
fn trailing_separator_decodes_to_trailing_zero() {
    assert_eq!(dna_to_values("a-").unwrap(), vec![0, 0]);
}

#[test]
fn dna_with_invalid_character_fails() {
    assert_eq!(dna_to_values("ab-c3"), Err(Error::InvalidDna));
    assert_eq!(dna_to_values("ab_cd"), Err(Error::InvalidDna));
}
