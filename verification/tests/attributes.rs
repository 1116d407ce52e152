use flatcam::attributes::{parse_attribute, AttrScope};

#[test]
fn parse_file_attribute_with_multiple_values() {
    let attr = parse_attribute("TF.GenerationSoftware,FlatCAM,1.0").unwrap();
    assert_eq!(attr.scope, AttrScope::File);
    assert_eq!(attr.name, "GenerationSoftware");
    assert_eq!(attr.values, vec!["FlatCAM".to_string(), "1.0".to_string()]);
}

#[test]
fn parse_aperture_attribute() {
    let attr = parse_attribute("TA.AperFunction,Conductor").unwrap();
    assert_eq!(attr.scope, AttrScope::Aperture);
    assert_eq!(attr.name, "AperFunction");
    assert_eq!(attr.values, vec!["Conductor".to_string()]);
}

#[test]
fn parse_object_attribute() {
    let attr = parse_attribute("TO.N,Net1").unwrap();
    assert_eq!(attr.scope, AttrScope::Object);
    assert_eq!(attr.name, "N");
    assert_eq!(attr.values, vec!["Net1".to_string()]);
}

#[test]
fn parse_bare_delete() {
    let attr = parse_attribute("TD").unwrap();
    assert_eq!(attr.scope, AttrScope::Delete);
    assert_eq!(attr.name, "");
    assert!(attr.values.is_empty());
}

#[test]
fn parse_named_delete() {
    let attr = parse_attribute("TD.AperFunction").unwrap();
    assert_eq!(attr.scope, AttrScope::Delete);
    assert_eq!(attr.name, "AperFunction");
    assert!(attr.values.is_empty());
}

#[test]
fn parse_unknown_returns_none() {
    assert_eq!(parse_attribute("XYZ"), None);
}

#[test]
fn parse_too_short_returns_none() {
    assert_eq!(parse_attribute("T"), None);
    assert_eq!(parse_attribute(""), None);
}

#[test]
fn parse_trims_whitespace() {
    let attr = parse_attribute("  TO.N,Net1  ").unwrap();
    assert_eq!(attr.scope, AttrScope::Object);
    assert_eq!(attr.name, "N");
    assert_eq!(attr.values, vec!["Net1".to_string()]);
}

// ----- further cases -----

#[test]
fn trailing_text_without_dot_is_ignored() {
    let attr = parse_attribute("TFoo,bar").unwrap();
    assert_eq!(attr.scope, AttrScope::File);
    assert_eq!(attr.name, "");
    assert!(attr.values.is_empty());
}

#[test]
fn empty_values_are_kept() {
    let attr = parse_attribute("TA.X,,y,").unwrap();
    assert_eq!(attr.name, "X");
    assert_eq!(attr.values, vec!["".to_string(), "y".to_string(), "".to_string()]);
}

#[test]
fn non_ascii_prefix_returns_none() {
    assert_eq!(parse_attribute("é"), None);
    assert_eq!(parse_attribute("tf.x"), None);
}

#[test]
fn written_attribute_reads_back_with_or_without_padding() {
    let codes = [('F', AttrScope::File), ('A', AttrScope::Aperture), ('O', AttrScope::Object), ('D', AttrScope::Delete)];
    for (c, scope) in codes {
        let text = format!("T{}.AperFunction,Conductor,Net 7", c);
        let plain = parse_attribute(&text).unwrap();
        assert_eq!(plain.scope, scope);
        assert_eq!(plain.name, "AperFunction");
        assert_eq!(plain.values, vec!["Conductor".to_string(), "Net 7".to_string()]);
        let padded = parse_attribute(&format!(" \t{}\r\n ", text));
        assert_eq!(padded, Some(plain));
    }
}
